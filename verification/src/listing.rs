//! The order of a directory listing: directories first, then files, each group
//! by name compared without case.
use vstd::prelude::*;
use crate::text::chars_of;
use crate::types::DirEntry;

verus! {

/// What `str::to_lowercase` gives for a string.
pub uninterp spec fn lowercase_spec(s: Seq<char>) -> Seq<char>;

/// `str::to_lowercase`; the result is `lowercase_spec` of the string.
#[verifier::external_body]
fn lowercase(s: &str) -> (r: String)
    ensures
        r@ == lowercase_spec(s@),
{
    s.to_lowercase()
}

/// `a` sorts strictly before `b` in dictionary order of their chars.
pub open spec fn seq_less(a: Seq<char>, b: Seq<char>) -> bool
    decreases a.len(),
{
    if a.len() == 0 {
        b.len() > 0
    } else if b.len() == 0 {
        false
    } else if a[0] != b[0] {
        (a[0] as u32) < (b[0] as u32)
    } else {
        seq_less(a.drop_first(), b.drop_first())
    }
}

/// Entry `a` is listed strictly before entry `b`: a directory before a file,
/// and within a group a smaller lowercased name first.
pub open spec fn listed_before(a: DirEntry, b: DirEntry) -> bool {
    ||| a.is_dir && !b.is_dir
    ||| a.is_dir == b.is_dir && seq_less(lowercase_spec(a.name@), lowercase_spec(b.name@))
}

/// `e` inserted into the listing `s` after every entry it is not listed before
/// (entries that compare equal keep their order).
pub open spec fn insert_listed(s: Seq<DirEntry>, e: DirEntry) -> Seq<DirEntry>
    decreases s.len(),
{
    if s.len() == 0 {
        seq![e]
    } else if listed_before(e, s[0]) {
        seq![e] + s
    } else {
        seq![s[0]] + insert_listed(s.drop_first(), e)
    }
}

/// The entries in listing order (a stable sort).
pub open spec fn listing_order(s: Seq<DirEntry>) -> Seq<DirEntry>
    decreases s.len(),
{
    if s.len() == 0 {
        Seq::<DirEntry>::empty()
    } else {
        insert_listed(listing_order(s.drop_last()), s.last())
    }
}

/// Every directory of `s` comes before every file.
pub open spec fn dirs_first(s: Seq<DirEntry>) -> bool {
    forall|i: int, j: int| 0 <= i < j < s.len() ==> (#[trigger] s[i]).is_dir || !(#[trigger] s[j]).is_dir
}

proof fn lemma_insert_listed_dirs_first(s: Seq<DirEntry>, e: DirEntry)
    requires
        dirs_first(s),
    ensures
        dirs_first(insert_listed(s, e)),
        insert_listed(s, e).len() == s.len() + 1,
        forall|x: DirEntry| #[trigger] insert_listed(s, e).contains(x) ==> s.contains(x) || x == e,
    decreases s.len(),
{
    let t = insert_listed(s, e);
    if s.len() == 0 {
        assert forall|x: DirEntry| #[trigger] t.contains(x) implies s.contains(x) || x == e by {
            assert(t[0] == e);
        }
    } else if listed_before(e, s[0]) {
        assert(t == seq![e] + s);
        assert forall|i: int, j: int| 0 <= i < j < t.len() implies (#[trigger] t[i]).is_dir || !(#[trigger] t[j]).is_dir by {
            if i == 0 {
                if !e.is_dir {
                    assert(!s[0].is_dir);
                    assert(t[j] == s[j - 1]);
                    if j - 1 > 0 {
                        assert(s[0].is_dir || !s[j - 1].is_dir);
                    }
                }
            } else {
                assert(t[i] == s[i - 1] && t[j] == s[j - 1]);
            }
        }
        assert forall|x: DirEntry| #[trigger] t.contains(x) implies s.contains(x) || x == e by {
            let k = choose|k: int| 0 <= k < t.len() && t[k] == x;
            if k > 0 {
                assert(s[k - 1] == x);
            }
        }
    } else {
        let d = s.drop_first();
        assert forall|i: int, j: int| 0 <= i < j < d.len() implies (#[trigger] d[i]).is_dir || !(#[trigger] d[j]).is_dir by {
            assert(d[i] == s[i + 1] && d[j] == s[j + 1]);
        }
        lemma_insert_listed_dirs_first(d, e);
        let u = insert_listed(d, e);
        assert(t == seq![s[0]] + u);
        assert forall|i: int, j: int| 0 <= i < j < t.len() implies (#[trigger] t[i]).is_dir || !(#[trigger] t[j]).is_dir by {
            if i == 0 {
                assert(t[0] == s[0]);
                if !s[0].is_dir {
                    assert(t[j] == u[j - 1]);
                    assert(u.contains(u[j - 1]));
                    if u[j - 1] != e {
                        assert(d.contains(u[j - 1]));
                        let m = choose|m: int| 0 <= m < d.len() && d[m] == u[j - 1];
                        assert(s[0].is_dir || !s[m + 1].is_dir);
                    } else {
                        assert(!e.is_dir || s[0].is_dir);
                    }
                }
            } else {
                assert(t[i] == u[i - 1] && t[j] == u[j - 1]);
            }
        }
        assert forall|x: DirEntry| #[trigger] t.contains(x) implies s.contains(x) || x == e by {
            let k = choose|k: int| 0 <= k < t.len() && t[k] == x;
            if k > 0 {
                assert(u[k - 1] == x);
                assert(u.contains(x));
                if x != e {
                    let m = choose|m: int| 0 <= m < d.len() && d[m] == x;
                    assert(s[m + 1] == x);
                }
            } else {
                assert(s[0] == x);
            }
        }
    }
}

/// A listing puts every directory before every file.
pub proof fn lemma_listing_dirs_first(s: Seq<DirEntry>)
    ensures
        dirs_first(listing_order(s)),
        listing_order(s).len() == s.len(),
    decreases s.len(),
{
    if s.len() > 0 {
        lemma_listing_dirs_first(s.drop_last());
        lemma_insert_listed_dirs_first(listing_order(s.drop_last()), s.last());
    }
}

/// Whether `a` comes before `b` in dictionary order.
fn chars_less(a: &Vec<char>, b: &Vec<char>) -> (r: bool)
    ensures
        r == seq_less(a@, b@),
{
    let mut i: usize = 0;
    assert(a@.skip(0) =~= a@);
    assert(b@.skip(0) =~= b@);
    while i < a.len() && i < b.len()
        invariant
            i <= a@.len(),
            i <= b@.len(),
            a@.take(i as int) == b@.take(i as int),
            seq_less(a@, b@) == seq_less(a@.skip(i as int), b@.skip(i as int)),
        decreases a@.len() - i,
    {
        proof {
            assert(a@.skip(i as int)[0] == a@[i as int]);
            assert(b@.skip(i as int)[0] == b@[i as int]);
            assert(a@.skip(i as int).drop_first() =~= a@.skip(i + 1));
            assert(b@.skip(i as int).drop_first() =~= b@.skip(i + 1));
        }
        if a[i] != b[i] {
            return (a[i] as u32) < (b[i] as u32);
        }
        assert(a@.take(i + 1) =~= a@.take(i as int).push(a@[i as int]));
        assert(b@.take(i + 1) =~= b@.take(i as int).push(b@[i as int]));
        i += 1;
    }
    proof {
        assert(a@.skip(i as int).len() == 0 || b@.skip(i as int).len() == 0);
    }
    i == a.len() && i < b.len()
}

proof fn lemma_insert_at(s: Seq<DirEntry>, e: DirEntry, j: int)
    requires
        0 <= j <= s.len(),
        forall|k: int| 0 <= k < j ==> !listed_before(e, #[trigger] s[k]),
        j < s.len() ==> listed_before(e, s[j]),
    ensures
        insert_listed(s, e) == s.take(j) + seq![e] + s.skip(j),
    decreases s.len(),
{
    if s.len() == 0 {
        assert(s.take(j) + seq![e] + s.skip(j) =~= seq![e]);
    } else if j == 0 {
        assert(s.take(0) + seq![e] + s.skip(0) =~= seq![e] + s);
    } else {
        let t = s.drop_first();
        assert forall|k: int| 0 <= k < j - 1 implies !listed_before(e, #[trigger] t[k]) by {
            assert(t[k] == s[k + 1]);
        }
        lemma_insert_at(t, e, j - 1);
        assert(seq![s[0]] + (t.take(j - 1) + seq![e] + t.skip(j - 1)) =~= s.take(j) + seq![e]
            + s.skip(j));
    }
}

/// Sort a directory listing: directories first, then files; each group
/// alphabetically by name, ignoring case.
pub fn sort_listing(entries: Vec<DirEntry>) -> (r: Vec<DirEntry>)
    ensures
        r@ == listing_order(entries@),
{
    let mut out: Vec<DirEntry> = Vec::new();
    let mut keys: Vec<Vec<char>> = Vec::new();
    let mut rest = entries;
    let ghost all = rest@;
    let mut i: usize = 0;
    let n = rest.len();
    assert(all.skip(0) =~= all);
    while i < n
        invariant
            n == all.len(),
            i <= n,
            rest@ == all.skip(i as int),
            out@ == listing_order(all.take(i as int)),
            keys@.len() == out@.len(),
            forall|k: int| 0 <= k < keys@.len() ==> #[trigger] keys@[k]@ == lowercase_spec(out@[k].name@),
        decreases n - i,
    {
        let e = rest.remove(0);
        assert(e == all[i as int]);
        assert(rest@ =~= all.skip(i + 1));
        let key = chars_of(lowercase(e.name.as_str()).as_str());
        let mut j: usize = 0;
        while j < out.len()
            invariant
                j <= out@.len(),
                keys@.len() == out@.len(),
                forall|k: int| 0 <= k < keys@.len() ==> #[trigger] keys@[k]@ == lowercase_spec(out@[k].name@),
                key@ == lowercase_spec(e.name@),
                forall|k: int| 0 <= k < j ==> !listed_before(e, #[trigger] out@[k]),
            ensures
                j <= out@.len(),
                forall|k: int| 0 <= k < j ==> !listed_before(e, #[trigger] out@[k]),
                j < out@.len() ==> listed_before(e, out@[j as int]),
            decreases out@.len() - j,
        {
            let other = &out[j];
            let before = (e.is_dir && !other.is_dir) || (e.is_dir == other.is_dir && chars_less(
                &key,
                &keys[j],
            ));
            if before {
                break;
            }
            j += 1;
        }
        proof {
            lemma_insert_at(out@, e, j as int);
            assert(all.take(i + 1).drop_last() =~= all.take(i as int));
        }
        out.insert(j, e);
        keys.insert(j, key);
        i += 1;
    }
    assert(all.take(n as int) =~= all);
    out
}

} // verus!

//! SHA-256 digest cache for file content change detection.
use vstd::prelude::*;
use sha2::Digest;
use crate::text::owned;

verus! {

/// The SHA-256 digest of some bytes, as `sha2::Sha256` computes it.
pub uninterp spec fn sha256_spec(data: Seq<u8>) -> Seq<u8>;

/// `sha2::Sha256` (`new`, `update`, `finalize`): the digest is `sha256_spec` of
/// the data, 32 bytes long.
#[verifier::external_body]
fn sha256(data: &[u8]) -> (r: Vec<u8>)
    ensures
        r@ == sha256_spec(data@),
        r@.len() == 32,
{
    let mut hasher = sha2::Sha256::new();
    hasher.update(data);
    hasher.finalize().to_vec()
}

/// The lowercase hex digit of a nibble.
pub open spec fn hex_digit(n: u8) -> char {
    if n < 10 {
        (('0' as u8) + n) as char
    } else {
        (('a' as u8) + (n - 10)) as char
    }
}

/// Every byte as two lowercase hex digits, high nibble first.
pub open spec fn hex_spec(data: Seq<u8>) -> Seq<char>
    decreases data.len(),
{
    if data.len() == 0 {
        Seq::<char>::empty()
    } else {
        hex_spec(data.drop_last()) + seq![hex_digit(data.last() / 16), hex_digit(data.last() % 16)]
    }
}

fn hex_digit_exec(n: u8) -> (c: char)
    requires
        n < 16,
    ensures
        c == hex_digit(n),
{
    if n < 10 {
        ((48u8 + n) as char)
    } else {
        ((97u8 + (n - 10)) as char)
    }
}

/// Each byte as two lowercase hex digits, high nibble first: what `hex::encode`
/// gives.
fn hex_encode(data: &[u8]) -> (r: String)
    ensures
        r@ == hex_spec(data@),
{
    let mut out = String::new();
    let mut i: usize = 0;
    while i < data.len()
        invariant
            i <= data@.len(),
            out@ == hex_spec(data@.take(i as int)),
        decreases data@.len() - i,
    {
        let b = data[i];
        assert(data@.take(i + 1).drop_last() =~= data@.take(i as int));
        crate::text::push_char(&mut out, hex_digit_exec(b / 16));
        crate::text::push_char(&mut out, hex_digit_exec(b % 16));
        i += 1;
    }
    assert(data@.take(i as int) =~= data@);
    out
}

/// Hex encoding doubles the length.
pub proof fn lemma_hex_len(data: Seq<u8>)
    ensures
        hex_spec(data).len() == 2 * data.len(),
    decreases data.len(),
{
    if data.len() > 0 {
        lemma_hex_len(data.drop_last());
    }
}

/// The hex SHA-256 digest of some content.
pub open spec fn content_digest(content: Seq<u8>) -> Seq<char> {
    hex_spec(sha256_spec(content))
}

/// The map from file path to digest.
pub type DigestMap = dashmap::DashMap<String, String>;

/// The digest a digest map holds for each path.
pub uninterp spec fn digest_contents(m: DigestMap) -> Map<Seq<char>, Seq<char>>;

/// The map with no path.
pub open spec fn no_digests() -> Map<Seq<char>, Seq<char>> {
    Map::empty()
}

/// `DashMap::new`: an empty map.
#[verifier::external_body]
fn digest_map_new() -> (m: DigestMap)
    ensures
        digest_contents(m) == no_digests(),
{
    dashmap::DashMap::new()
}

/// `DashMap::insert`: puts `d` under `key`, replacing what was there.
#[verifier::external_body]
fn digest_map_insert(m: &mut DigestMap, key: String, d: String)
    ensures
        digest_contents(*final(m)) == digest_contents(*old(m)).insert(key@, d@),
{
    m.insert(key, d);
}

/// `DashMap::get`: a copy of the digest under `key`.
#[verifier::external_body]
fn digest_map_get(m: &DigestMap, key: &str) -> (r: Option<String>)
    ensures
        r is Some <==> digest_contents(*m).dom().contains(key@),
        r matches Some(v) ==> v@ == digest_contents(*m)[key@],
{
    m.get(key).map(|v| v.clone())
}

/// `DashMap::remove`: takes the entry under `key` out, telling whether there
/// was one.
#[verifier::external_body]
fn digest_map_remove(m: &mut DigestMap, key: &str) -> (r: bool)
    ensures
        r == digest_contents(*old(m)).dom().contains(key@),
        digest_contents(*final(m)) == digest_contents(*old(m)).remove(key@),
{
    m.remove(key).is_some()
}

/// `DashMap::clear`: removes every entry.
#[verifier::external_body]
fn digest_map_clear(m: &mut DigestMap)
    ensures
        digest_contents(*final(m)) == no_digests(),
{
    m.clear()
}

/// The path `p` rebuilt from its components, as `std::path::Path::components`
/// yields them: repeated separators, `.` components and a trailing separator
/// make no difference, so two paths have the same key exactly when they are
/// equal as `PathBuf`s.
pub uninterp spec fn path_key_spec(p: Seq<char>) -> Seq<char>;

/// `Path::components`, collected back into a path: the key a path is cached under.
#[verifier::external_body]
fn path_key(p: &str) -> (r: String)
    ensures
        r@ == path_key_spec(p@),
{
    std::path::Path::new(p).components().collect::<std::path::PathBuf>().to_string_lossy().into_owned()
}

/// A cache mapping file paths (compared as paths, by their components) to
/// their last-computed SHA-256 hex digest.
pub struct DigestCache {
    inner: DigestMap,
}

impl View for DigestCache {
    type V = Map<Seq<char>, Seq<char>>;

    closed spec fn view(&self) -> Map<Seq<char>, Seq<char>> {
        digest_contents(self.inner)
    }
}

impl DigestCache {
    /// Create a new, empty digest cache.
    pub fn new() -> (c: Self)
        ensures
            c@ == Map::<Seq<char>, Seq<char>>::empty(),
    {
        DigestCache { inner: digest_map_new() }
    }

    /// Compute the SHA-256 digest of `content` (the bytes of the file at
    /// `path`), store it for `path`, and return the hex-encoded string.
    pub fn compute(&mut self, path: &str, content: &[u8]) -> (d: String)
        ensures
            d@ == content_digest(content@),
            d@.len() == 64,
            final(self)@ == old(self)@.insert(path_key_spec(path@), content_digest(content@)),
    {
        let hash = sha256(content);
        proof {
            lemma_hex_len(hash@);
        }
        let digest = hex_encode(hash.as_slice());
        digest_map_insert(&mut self.inner, path_key(path), owned(digest.as_str()));
        digest
    }

    /// Return the cached digest for `path`, or `None` if it has not been computed.
    pub fn get(&self, path: &str) -> (r: Option<String>)
        ensures
            r is Some <==> self@.dom().contains(path_key_spec(path@)),
            r matches Some(v) ==> v@ == self@[path_key_spec(path@)],
    {
        let key = path_key(path);
        digest_map_get(&self.inner, key.as_str())
    }

    /// Remove the cached digest for `path`.
    ///
    /// Returns `true` if an entry existed and was removed, `false` otherwise.
    pub fn invalidate(&mut self, path: &str) -> (r: bool)
        ensures
            r == old(self)@.dom().contains(path_key_spec(path@)),
            final(self)@ == old(self)@.remove(path_key_spec(path@)),
    {
        let key = path_key(path);
        digest_map_remove(&mut self.inner, key.as_str())
    }

    /// Check whether the file at `path`, whose bytes are now `content`, has
    /// changed since the last call.
    ///
    /// Computes the content's digest, compares it with the cached value, and
    /// updates the cache.  Returns `true` if the digest differs (or if no
    /// cached value existed), `false` if the file is unchanged.
    pub fn has_changed(&mut self, path: &str, content: &[u8]) -> (r: bool)
        ensures
            r == !(old(self)@.dom().contains(path_key_spec(path@)) && old(self)@[path_key_spec(path@)]
                == content_digest(content@)),
            final(self)@ == old(self)@.insert(path_key_spec(path@), content_digest(content@)),
            final(self)@[path_key_spec(path@)].len() == 64,
    {
        let previous = self.get(path);
        let current = self.compute(path, content);
        match previous {
            Some(p) => !crate::text::str_eq(p.as_str(), current.as_str()),
            None => true,
        }
    }

    /// Remove all entries from the cache.
    pub fn clear(&mut self)
        ensures
            final(self)@ == Map::<Seq<char>, Seq<char>>::empty(),
    {
        digest_map_clear(&mut self.inner)
    }
}

/// Checking the same content twice in a row reports no change the second time.
pub proof fn lemma_unchanged_after_check(m: Map<Seq<char>, Seq<char>>, path: Seq<char>, content: Seq<u8>)
    ensures
        ({
            let after = m.insert(path, content_digest(content));
            after.dom().contains(path) && after[path] == content_digest(content)
        }),
{
}

} // verus!

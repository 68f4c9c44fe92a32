//! Ring-buffer history of recent telemetry values, keyed by name.
use vstd::prelude::*;
use std::collections::VecDeque;
use crate::text::owned;

verus! {

/// Default number of records kept per key.
pub const DEFAULT_HISTORY_CAPACITY: usize = 500;

/// A single recorded data point.
#[derive(Debug, Clone, Copy, PartialEq, Eq, Structural)]
pub struct PacketRecord {
    /// Unix epoch milliseconds.
    pub timestamp_ms: i64,
    /// The recorded number, as the bit pattern of an IEEE-754 double.
    pub value_bits: u64,
}

#[verifier::external_type_specification]
#[verifier::external_body]
#[verifier::reject_recursive_types(K)]
#[verifier::reject_recursive_types(V)]
#[verifier::reject_recursive_types(S)]
pub struct ExDashMap<K, V, S>(dashmap::DashMap<K, V, S>);

/// The map from key to its records.
pub type HistoryMap = dashmap::DashMap<String, VecDeque<PacketRecord>>;

/// The history with no key.
pub open spec fn empty_history() -> Map<Seq<char>, Seq<PacketRecord>> {
    Map::empty()
}

/// The records a history map holds under each key.
pub uninterp spec fn history_contents(m: HistoryMap) -> Map<Seq<char>, Seq<PacketRecord>>;

/// `DashMap::new`: an empty map.
#[verifier::external_body]
fn history_map_new() -> (m: HistoryMap)
    ensures
        history_contents(m) == empty_history(),
{
    dashmap::DashMap::new()
}

/// `DashMap::remove`: takes the records under `key` out of the map.
#[verifier::external_body]
fn history_map_remove(m: &mut HistoryMap, key: &str) -> (r: Option<VecDeque<PacketRecord>>)
    ensures
        r is Some <==> history_contents(*old(m)).dom().contains(key@),
        r matches Some(d) ==> d@ == history_contents(*old(m))[key@],
        history_contents(*final(m)) == history_contents(*old(m)).remove(key@),
{
    m.remove(key).map(|(_, d)| d)
}

/// `DashMap::insert`: puts `d` under `key`, replacing what was there.
#[verifier::external_body]
fn history_map_insert(m: &mut HistoryMap, key: String, d: VecDeque<PacketRecord>)
    ensures
        history_contents(*final(m)) == history_contents(*old(m)).insert(key@, d@),
{
    m.insert(key, d);
}

/// `DashMap::get`: a copy of the records under `key`, oldest first.
#[verifier::external_body]
fn history_map_get(m: &HistoryMap, key: &str) -> (r: Option<Vec<PacketRecord>>)
    ensures
        r is Some <==> history_contents(*m).dom().contains(key@),
        r matches Some(v) ==> v@ == history_contents(*m)[key@],
{
    m.get(key).map(|d| d.iter().copied().collect())
}

/// `DashMap::iter` over the keys: each key once, in an order the map chooses.
#[verifier::external_body]
fn history_map_keys(m: &HistoryMap) -> (r: Vec<String>)
    ensures
        r@.map_values(|k: String| k@).to_set() == history_contents(*m).dom(),
        r@.map_values(|k: String| k@).no_duplicates(),
{
    m.iter().map(|e| e.key().clone()).collect()
}

/// `DashMap::clear`: removes every key.
#[verifier::external_body]
fn history_map_clear(m: &mut HistoryMap)
    ensures
        history_contents(*final(m)) == empty_history(),
{
    m.clear()
}

/// The records kept for a key after one more is recorded with capacity `cap`:
/// the newest `cap` of the old records followed by the new one, oldest first.
pub open spec fn after_insert(old: Seq<PacketRecord>, cap: nat, rec: PacketRecord) -> Seq<PacketRecord> {
    let s = old.push(rec);
    s.skip(if s.len() > cap { s.len() - cap } else { 0 })
}

/// The history after `rec` is recorded under `key` with capacity `cap`: with
/// capacity zero nothing is kept.
pub open spec fn history_after(
    m: Map<Seq<char>, Seq<PacketRecord>>,
    key: Seq<char>,
    cap: nat,
    rec: PacketRecord,
) -> Map<Seq<char>, Seq<PacketRecord>> {
    if cap == 0 {
        m
    } else {
        m.insert(key, after_insert(if m.dom().contains(key) { m[key] } else { seq![] }, cap, rec))
    }
}

/// The total number of records under the keys `ks`.
pub open spec fn sum_lens(m: Map<Seq<char>, Seq<PacketRecord>>, ks: Seq<Seq<char>>) -> nat
    decreases ks.len(),
{
    if ks.len() == 0 { 0 } else { sum_lens(m, ks.drop_last()) + m[ks.last()].len() }
}

/// A thread-safe store of the most recent `capacity` records of each key.
pub struct HistoryBuffer {
    data: HistoryMap,
    capacity: usize,
}

impl View for HistoryBuffer {
    type V = (Map<Seq<char>, Seq<PacketRecord>>, nat);

    closed spec fn view(&self) -> (Map<Seq<char>, Seq<PacketRecord>>, nat) {
        (history_contents(self.data), self.capacity as nat)
    }
}

impl HistoryBuffer {
    /// Every key holds between one record and the capacity.
    pub open spec fn wf(&self) -> bool {
        forall|k: Seq<char>| #[trigger] self@.0.dom().contains(k) ==> 1 <= self@.0[k].len() <= self@.1
    }

    /// An empty buffer keeping `capacity` records per key.
    pub fn new(capacity: usize) -> (b: Self)
        ensures
            b@ == (empty_history(), capacity as nat),
            b.wf(),
    {
        HistoryBuffer { data: history_map_new(), capacity }
    }

    /// Records `record` under `key`, first dropping the key's oldest record when
    /// the key is at capacity.
    pub fn insert(&mut self, key: &str, record: PacketRecord)
        requires
            old(self).wf(),
        ensures
            final(self).wf(),
            final(self)@.1 == old(self)@.1,
            final(self)@.0 == history_after(old(self)@.0, key@, old(self)@.1, record),
    {
        let ghost m0 = self@.0;
        if self.capacity == 0 {
            return;
        }
        let mut deque = match history_map_remove(&mut self.data, key) {
            Some(d) => d,
            None => VecDeque::with_capacity(self.capacity),
        };
        if deque.len() >= self.capacity {
            let _ = deque.pop_front();
        }
        deque.push_back(record);
        proof {
            let o = if m0.dom().contains(key@) { m0[key@] } else { seq![] };
            let t = o.push(record);
            if o.len() >= self@.1 {
                assert(o.drop_first().push(record) =~= t.skip(1));
            } else {
                assert(t.skip(0) =~= t);
            }
        }
        history_map_insert(&mut self.data, owned(key), deque);
        proof {
            assert(m0.remove(key@).insert(key@, after_insert(
                if m0.dom().contains(key@) { m0[key@] } else { seq![] }, self@.1, record))
                =~= m0.insert(key@, after_insert(
                if m0.dom().contains(key@) { m0[key@] } else { seq![] }, self@.1, record)));
        }
    }

    /// A snapshot of the records under `key`, oldest first (empty for an unknown key).
    pub fn get(&self, key: &str) -> (r: Vec<PacketRecord>)
        ensures
            r@ == if self@.0.dom().contains(key@) { self@.0[key@] } else { seq![] },
    {
        match history_map_get(&self.data, key) {
            Some(v) => v,
            None => Vec::new(),
        }
    }

    /// Every key that has a record, each once, in no particular order.
    pub fn keys(&self) -> (r: Vec<String>)
        ensures
            r@.map_values(|k: String| k@).to_set() == self@.0.dom(),
            r@.map_values(|k: String| k@).no_duplicates(),
    {
        history_map_keys(&self.data)
    }

    /// Removes all records.
    pub fn clear(&mut self)
        ensures
            final(self)@ == (empty_history(), old(self)@.1),
            final(self).wf(),
    {
        history_map_clear(&mut self.data)
    }

    /// The total number of records over all keys (saturating at `usize::MAX`).
    pub fn len(&self) -> (n: usize)
        ensures
            exists|ks: Seq<Seq<char>>| #![trigger sum_lens(self@.0, ks)]
                ks.to_set() == self@.0.dom() && ks.no_duplicates()
                && n == if sum_lens(self@.0, ks) > usize::MAX { usize::MAX as nat } else { sum_lens(self@.0, ks) },
    {
        let keys = history_map_keys(&self.data);
        let ghost ks = keys@.map_values(|k: String| k@);
        let mut total: usize = 0;
        let mut i: usize = 0;
        while i < keys.len()
            invariant
                i <= keys@.len(),
                ks == keys@.map_values(|k: String| k@),
                ks.to_set() == self@.0.dom(),
                total == if sum_lens(self@.0, ks.take(i as int)) > usize::MAX { usize::MAX as nat }
                    else { sum_lens(self@.0, ks.take(i as int)) },
            decreases keys@.len() - i,
        {
            proof {
                assert(ks.take(i + 1).drop_last() == ks.take(i as int));
                assert(ks.take(i + 1).last() == keys@[i as int]@);
                assert(ks.to_set().contains(ks[i as int]));
            }
            let n = match history_map_get(&self.data, keys[i].as_str()) {
                Some(v) => v.len(),
                None => 0,
            };
            total = total.saturating_add(n);
            i += 1;
        }
        assert(ks.take(keys@.len() as int) == ks);
        total
    }

    /// `true` when no key has a record.
    pub fn is_empty(&self) -> (r: bool)
        requires
            self.wf(),
        ensures
            r == (self@.0.dom().len() == 0),
    {
        let keys = history_map_keys(&self.data);
        proof {
            let ks = keys@.map_values(|k: String| k@);
            ks.unique_seq_to_set();
        }
        keys.len() == 0
    }
}

} // verus!

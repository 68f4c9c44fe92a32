//! In-flight requests awaiting their responses, keyed by numeric id.
use vstd::prelude::*;
use tokio::sync::oneshot;
use crate::envelope::RpcMessage;

verus! {

#[verifier::external_type_specification]
#[verifier::external_body]
#[verifier::reject_recursive_types(T)]
pub struct ExOneshotSender<T>(tokio::sync::oneshot::Sender<T>);

#[verifier::external_type_specification]
#[verifier::external_body]
#[verifier::reject_recursive_types(T)]
pub struct ExOneshotReceiver<T>(tokio::sync::oneshot::Receiver<T>);

#[verifier::external_type_specification]
#[verifier::external_body]
pub struct ExRecvError(tokio::sync::oneshot::error::RecvError);

/// The map from request id to the sender its response goes to.
pub type PendingMap = dashmap::DashMap<i64, oneshot::Sender<RpcMessage>>;

/// The ids a pending map holds.
pub uninterp spec fn pending_ids(m: PendingMap) -> Set<i64>;

/// `tokio::sync::oneshot::channel`: a connected sender and receiver.
#[verifier::external_body]
fn oneshot_channel() -> (r: (oneshot::Sender<RpcMessage>, oneshot::Receiver<RpcMessage>)) {
    oneshot::channel()
}

/// `oneshot::Sender::send`: hands `msg` to the receiver; when the receiver
/// is gone the message is dropped.
#[verifier::external_body]
fn oneshot_send(tx: oneshot::Sender<RpcMessage>, msg: RpcMessage) {
    let _ = tx.send(msg);
}

/// `DashMap::new`: an empty map.
#[verifier::external_body]
fn pending_map_new() -> (m: PendingMap)
    ensures
        pending_ids(m) == Set::<i64>::empty(),
{
    dashmap::DashMap::new()
}

/// `DashMap::insert`: puts `tx` under `id`, replacing what was there.
#[verifier::external_body]
fn pending_map_insert(m: &mut PendingMap, id: i64, tx: oneshot::Sender<RpcMessage>)
    ensures
        pending_ids(*final(m)) == pending_ids(*old(m)).insert(id),
{
    m.insert(id, tx);
}

/// `DashMap::remove`: takes the sender under `id` out of the map.
#[verifier::external_body]
fn pending_map_remove(m: &mut PendingMap, id: i64) -> (r: Option<oneshot::Sender<RpcMessage>>)
    ensures
        r is Some <==> pending_ids(*old(m)).contains(id),
        pending_ids(*final(m)) == pending_ids(*old(m)).remove(id),
{
    m.remove(&id).map(|(_, tx)| tx)
}

/// `DashMap::len`: the number of entries, one per id.
#[verifier::external_body]
fn pending_map_len(m: &PendingMap) -> (r: usize)
    ensures
        r == pending_ids(*m).len(),
{
    m.len()
}

/// Tracks requests awaiting a response so that each response reaches the
/// caller that sent its request.
pub struct PendingRequests {
    inner: PendingMap,
}

impl View for PendingRequests {
    type V = Set<i64>;

    closed spec fn view(&self) -> Set<i64> {
        pending_ids(self.inner)
    }
}

impl PendingRequests {
    /// No request pending.
    pub fn new() -> (r: Self)
        ensures
            r@ == Set::<i64>::empty(),
    {
        PendingRequests { inner: pending_map_new() }
    }

    /// Register request `id`; its response will arrive on the returned
    /// receiver (a request already pending under `id` loses its sender).
    pub fn insert(&mut self, id: i64) -> (rx: oneshot::Receiver<RpcMessage>)
        ensures
            final(self)@ == old(self)@.insert(id),
    {
        let (tx, rx) = oneshot_channel();
        pending_map_insert(&mut self.inner, id, tx);
        rx
    }

    /// Deliver the response to request `id`: `true` when it was pending (it
    /// no longer is), `false` when no request waits under `id`.
    pub fn complete(&mut self, id: i64, msg: RpcMessage) -> (r: bool)
        ensures
            r == old(self)@.contains(id),
            final(self)@ == old(self)@.remove(id),
    {
        match pending_map_remove(&mut self.inner, id) {
            Some(tx) => {
                oneshot_send(tx, msg);
                true
            },
            None => false,
        }
    }

    /// Stop waiting for request `id` (e.g. on timeout).
    pub fn cancel(&mut self, id: i64)
        ensures
            final(self)@ == old(self)@.remove(id),
    {
        let _ = pending_map_remove(&mut self.inner, id);
    }

    /// How many requests are pending.
    pub fn len(&self) -> (r: usize)
        ensures
            r == self@.len(),
    {
        pending_map_len(&self.inner)
    }

    /// Whether no request is pending.
    pub fn is_empty(&self) -> (r: bool)
        ensures
            r == (self@.len() == 0),
    {
        pending_map_len(&self.inner) == 0
    }
}

impl Default for PendingRequests {
    fn default() -> (r: Self)
        ensures
            r@ == Set::<i64>::empty(),
    {
        Self::new()
    }
}

} // verus!

//! The client-side inference socket pool: rotation, reconnection policy,
//! and the single-retry rule.
//!
//! The pool's connections live outside the library; the pool here tracks
//! what is known of each slot and makes every decision the pool's send
//! path needs: which slot to use, whether it must be (re)connected, and
//! whether a failed send is retried.

use vstd::prelude::*;

use crate::error::Error;

verus! {

/// What the pool knows about one connection slot.
#[derive(Clone, Copy, Debug, PartialEq, Eq, Structural)]
pub enum ConnectionSlotState {
    /// Never connected.
    Vacant,
    /// A connection was established and has not been seen to drop.
    Connected,
    /// The connection was seen to be closed.
    Disconnected,
}

/// The pool's model of its slots and rotation cursor.
pub struct InferenceSocketPool {
    pub slots: Vec<ConnectionSlotState>,
    pub next_idx: usize,
}

impl InferenceSocketPool {
    /// The pool has at least one slot.
    pub open spec fn wf(&self) -> bool {
        self.slots@.len() > 0
    }

    pub open spec fn spec_pool_size(&self) -> nat {
        self.slots@.len()
    }

    /// A pool of `pool_size` slots, none connected yet.
    pub fn new(pool_size: usize) -> (r: Self)
        requires
            pool_size > 0,
        ensures
            r.wf(),
            r.spec_pool_size() == pool_size,
            r.next_idx == 0,
            forall|i: int| 0 <= i < pool_size ==> r.slots@[i] is Vacant,
    {
        let mut slots: Vec<ConnectionSlotState> = Vec::new();
        let mut i: usize = 0;
        while i < pool_size
            invariant
                i <= pool_size,
                slots@.len() == i,
                forall|j: int| 0 <= j < i ==> slots@[j] is Vacant,
            decreases pool_size - i,
        {
            slots.push(ConnectionSlotState::Vacant);
            i = i + 1;
        }
        InferenceSocketPool { slots, next_idx: 0 }
    }

    /// The slot the next request uses: round-robin over the pool, with a
    /// wrapping cursor.
    pub fn next_connection_index(&mut self) -> (r: usize)
        requires
            old(self).wf(),
        ensures
            final(self).wf(),
            final(self).slots == old(self).slots,
            r == old(self).next_idx as int % old(self).slots@.len() as int,
            final(self).next_idx == (if old(self).next_idx == usize::MAX {
                0usize
            } else {
                (old(self).next_idx + 1) as usize
            }),
    {
        let conn_idx = self.next_idx % self.slots.len();
        self.next_idx = self.next_idx.wrapping_add(1);
        conn_idx
    }

    /// Whether the slot must be (re)connected before a send: it has no
    /// connection, or its connection was seen to drop.
    pub fn needs_connect(&self, index: usize) -> (r: bool)
        requires
            index < self.slots@.len(),
        ensures
            r <==> !(self.slots@[index as int] is Connected),
    {
        match self.slots[index] {
            ConnectionSlotState::Connected => false,
            _ => true,
        }
    }

    /// Record that the slot holds a fresh connection.
    pub fn mark_connected(&mut self, index: usize)
        requires
            old(self).wf(),
            index < old(self).slots@.len(),
        ensures
            final(self).wf(),
            final(self).next_idx == old(self).next_idx,
            final(self).slots@ == old(self).slots@.update(
                index as int,
                ConnectionSlotState::Connected,
            ),
    {
        let slot = &mut self.slots[index];
        *slot = ConnectionSlotState::Connected;
    }

    /// Record that the slot's connection was seen to be closed.
    pub fn mark_disconnected(&mut self, index: usize)
        requires
            old(self).wf(),
            index < old(self).slots@.len(),
        ensures
            final(self).wf(),
            final(self).next_idx == old(self).next_idx,
            final(self).slots@ == old(self).slots@.update(
                index as int,
                ConnectionSlotState::Disconnected,
            ),
    {
        let slot = &mut self.slots[index];
        *slot = ConnectionSlotState::Disconnected;
    }
}

/// The single-retry rule for one send over a pooled connection: a send
/// that failed because the connection dropped is retried exactly once on
/// a fresh connection; any other failure is surfaced as it is.
pub fn should_retry_send(error: &Error) -> (r: bool)
    ensures
        r <==> error is ConnectionDropped,
{
    match error {
        Error::ConnectionDropped { .. } => true,
        _ => false,
    }
}

/// The error surfaced when the retried send fails too: the second
/// failure is not retried and is reported as a plain failure.
pub fn second_failure_error(error: Error) -> (r: Error)
    ensures
        r matches Error::Other(m) && (error matches Error::ConnectionDropped { request_id } ==> m@
            == request_id@),
{
    match error {
        Error::ConnectionDropped { request_id } => Error::Other(request_id),
        Error::Other(m) => Error::Other(m),
        Error::Http(m) => Error::Other(m),
        Error::WebSocket(m) => Error::Other(m),
        Error::Json(m) => Error::Other(m),
        Error::Url(m) => Error::Other(m),
        Error::PoolExhausted => Error::Other("pool exhausted".to_owned()),
        Error::Server { code: _, message } => Error::Other(message),
    }
}

} // verus!

//! Admission control and the bounded FIFO buffer of undispatched requests.
//!
//! An admitted request is dispatched at once when a compatible agent has a
//! free slot; otherwise it waits in a bounded queue until a slot frees, a
//! timeout passes, or its client cancels. Admission past the depth limit
//! is rejected with a single terminal response.

use vstd::prelude::*;

use crate::agents::AgentPool;
use crate::inference_client::Message;
use crate::relay::PendingRequests;
use crate::relay::RouteOutcome;
use crate::inference_client::Response;
use crate::inference_client::spec_is_terminal_message;
use crate::inference_client::spec_message_request_id;
use crate::jsonrpc::ResponseEnvelope;

verus! {

/// One admitted request waiting for a slot.
#[derive(Clone, Debug, PartialEq, Eq)]
pub struct BufferedRequest {
    pub request_id: String,
    pub model_id: String,
    /// Monotonic enqueue timestamp, in milliseconds.
    pub enqueued_at: u64,
}

/// The buffered counter exposed by the management API.
#[derive(Clone, Copy, Debug, PartialEq, Eq, Structural)]
pub struct BufferedRequestManagerSnapshot {
    pub buffered_requests_current: i32,
}

/// What admitting one request did.
#[derive(Clone, Copy, Debug, PartialEq, Eq, Structural)]
pub enum AdmitOutcome {
    /// A compatible agent had a free slot: dispatched at once to the
    /// agent at this pool position, skipping the queue.
    Dispatched(usize),
    /// No free compatible slot, but the queue had room.
    Buffered,
    /// The queue was full: the request gets one terminal rejection.
    Rejected,
}

/// The central admission gate and bounded request queue.
pub struct BufferedRequestManager {
    pub queue: Vec<BufferedRequest>,
    pub max_buffered_requests: i32,
    pub buffered_request_timeout_millis: u64,
}

/// Which requests a sweep at `now` removes (right) and keeps (left),
/// both in queue order.
pub open spec fn spec_sweep(q: Seq<BufferedRequest>, now: u64, timeout: u64) -> (
    Seq<BufferedRequest>,
    Seq<BufferedRequest>,
)
    decreases q.len(),
{
    if q.len() == 0 {
        (Seq::<BufferedRequest>::empty(), Seq::<BufferedRequest>::empty())
    } else {
        let prev = spec_sweep(q.drop_last(), now, timeout);
        let r = q.last();
        if now - r.enqueued_at >= timeout {
            (prev.0, prev.1.push(r))
        } else {
            (prev.0.push(r), prev.1)
        }
    }
}

impl BufferedRequestManager {
    /// The queue depth limit: a negative configured maximum admits
    /// nothing to the queue.
    pub open spec fn spec_cap(&self) -> int {
        if self.max_buffered_requests < 0 {
            0int
        } else {
            self.max_buffered_requests as int
        }
    }

    /// The queue never exceeds the configured depth limit.
    pub open spec fn wf(&self) -> bool {
        self.queue@.len() <= self.spec_cap()
    }

    /// A manager with the given limits and an empty queue.
    pub fn new(max_buffered_requests: i32, buffered_request_timeout_millis: u64) -> (r: Self)
        ensures
            r.wf(),
            r.queue@.len() == 0,
            r.max_buffered_requests == max_buffered_requests,
            r.buffered_request_timeout_millis == buffered_request_timeout_millis,
    {
        BufferedRequestManager {
            queue: Vec::new(),
            max_buffered_requests,
            buffered_request_timeout_millis,
        }
    }

    /// Admit one request: dispatch it at once when a compatible agent has
    /// a free slot (the slot is taken optimistically); otherwise buffer it
    /// while the queue has room; otherwise reject it. The queue never
    /// grows past the depth limit.
    pub fn admit_request(&mut self, pool: &mut AgentPool, request: BufferedRequest) -> (r: AdmitOutcome)
        requires
            old(self).wf(),
            old(pool).wf(),
        ensures
            final(self).wf(),
            final(pool).wf(),
            final(self).max_buffered_requests == old(self).max_buffered_requests,
            final(self).buffered_request_timeout_millis == old(
                self,
            ).buffered_request_timeout_millis,
            match r {
                AdmitOutcome::Dispatched(i) => {
                    &&& i < old(pool).agents@.len()
                    &&& old(pool).agents@[i as int].spec_can_accept(request.model_id@)
                    &&& final(pool).agents@[i as int].reserved == old(
                        pool,
                    ).agents@[i as int].reserved + 1
                    &&& forall|j: int|
                        0 <= j < old(pool).agents@.len() && j != i ==> final(pool).agents@[j]
                            == old(pool).agents@[j]
                    &&& final(self).queue@ == old(self).queue@
                },
                AdmitOutcome::Buffered => {
                    &&& forall|i: int|
                        0 <= i < old(pool).agents@.len() ==> !(#[trigger] old(
                            pool,
                        ).agents@[i]).spec_can_accept(request.model_id@)
                    &&& *final(pool) == *old(pool)
                    &&& old(self).queue@.len() < old(self).spec_cap()
                    &&& final(self).queue@ == old(self).queue@.push(request)
                },
                AdmitOutcome::Rejected => {
                    &&& forall|i: int|
                        0 <= i < old(pool).agents@.len() ==> !(#[trigger] old(
                            pool,
                        ).agents@[i]).spec_can_accept(request.model_id@)
                    &&& *final(pool) == *old(pool)
                    &&& old(self).queue@.len() >= old(self).spec_cap()
                    &&& final(self).queue@ == old(self).queue@
                },
            },
    {
        match pool.find_compatible(&request.model_id) {
            Some(i) => {
                let reserved = pool.reserve_slot_on(i);
                proof {
                    assert(reserved);
                }
                AdmitOutcome::Dispatched(i)
            },
            None => {
                let depth = self.queue.len();
                let room = if self.max_buffered_requests < 0 {
                    false
                } else {
                    depth < (self.max_buffered_requests as usize)
                };
                if room {
                    self.queue.push(request);
                    AdmitOutcome::Buffered
                } else {
                    AdmitOutcome::Rejected
                }
            },
        }
    }

    /// A slot serving `model_id` became free: hand back the oldest
    /// compatible buffered request, removing it from the queue; the queue
    /// keeps its order otherwise. With no compatible entry the queue is
    /// untouched and the slot stays free.
    pub fn on_slot_freed(&mut self, model_id: &String) -> (r: Option<BufferedRequest>)
        requires
            old(self).wf(),
        ensures
            final(self).wf(),
            final(self).max_buffered_requests == old(self).max_buffered_requests,
            final(self).buffered_request_timeout_millis == old(
                self,
            ).buffered_request_timeout_millis,
            match r {
                Some(req) => exists|k: int|
                    {
                        &&& 0 <= k < old(self).queue@.len()
                        &&& (#[trigger] old(self).queue@[k]).model_id@ == model_id@
                        &&& forall|j: int| 0 <= j < k ==> old(self).queue@[j].model_id@ != model_id@
                        &&& req == old(self).queue@[k]
                        &&& final(self).queue@ == old(self).queue@.remove(k)
                    },
                None => final(self).queue@ == old(self).queue@ && forall|k: int|
                    0 <= k < old(self).queue@.len() ==> (#[trigger] old(self).queue@[k]).model_id@
                        != model_id@,
            },
    {
        let n = self.queue.len();
        let mut k: usize = 0;
        while k < n
            invariant
                *self == *old(self),
                old(self).wf(),
                n == self.queue@.len(),
                k <= n,
                forall|j: int| 0 <= j < k ==> (#[trigger] self.queue@[j]).model_id@ != model_id@,
            decreases n - k,
        {
            if self.queue[k].model_id.eq(model_id) {
                let req = self.queue.remove(k);
                return Some(req);
            }
            k = k + 1;
        }
        None
    }

    /// Remove the buffered request with this id because its client went
    /// away; no response is ever sent for it.
    pub fn cancel(&mut self, request_id: &String) -> (r: bool)
        requires
            old(self).wf(),
        ensures
            final(self).wf(),
            final(self).max_buffered_requests == old(self).max_buffered_requests,
            final(self).buffered_request_timeout_millis == old(
                self,
            ).buffered_request_timeout_millis,
            r ==> exists|k: int|
                {
                    &&& 0 <= k < old(self).queue@.len()
                    &&& (#[trigger] old(self).queue@[k]).request_id@ == request_id@
                    &&& final(self).queue@ == old(self).queue@.remove(k)
                },
            !r ==> final(self).queue@ == old(self).queue@ && forall|k: int|
                0 <= k < old(self).queue@.len() ==> (#[trigger] old(self).queue@[k]).request_id@
                    != request_id@,
    {
        let n = self.queue.len();
        let mut k: usize = 0;
        while k < n
            invariant
                *self == *old(self),
                old(self).wf(),
                n == self.queue@.len(),
                k <= n,
                forall|j: int| 0 <= j < k ==> (#[trigger] self.queue@[j]).request_id@ != request_id@,
            decreases n - k,
        {
            if self.queue[k].request_id.eq(request_id) {
                self.queue.remove(k);
                return true;
            }
            k = k + 1;
        }
        false
    }

    /// Remove every request that has waited at least the configured
    /// timeout, preserving the order of the rest; the removed requests
    /// are handed back, in queue order, for their terminal `Timeout`
    /// responses.
    pub fn sweep_timeouts(&mut self, now: u64) -> (r: Vec<BufferedRequest>)
        requires
            old(self).wf(),
            forall|i: int|
                0 <= i < old(self).queue@.len() ==> (#[trigger] old(self).queue@[i]).enqueued_at
                    <= now,
        ensures
            final(self).wf(),
            final(self).max_buffered_requests == old(self).max_buffered_requests,
            final(self).buffered_request_timeout_millis == old(
                self,
            ).buffered_request_timeout_millis,
            final(self).queue@ == spec_sweep(
                old(self).queue@,
                now,
                old(self).buffered_request_timeout_millis,
            ).0,
            r@ == spec_sweep(old(self).queue@, now, old(self).buffered_request_timeout_millis).1,
    {
        let ghost original = self.queue@;
        let timeout = self.buffered_request_timeout_millis;
        let mut kept: Vec<BufferedRequest> = Vec::new();
        let mut expired: Vec<BufferedRequest> = Vec::new();
        let total = self.queue.len();
        let mut k: usize = 0;
        while self.queue.len() > 0
            invariant
                old(self).wf(),
                self.max_buffered_requests == old(self).max_buffered_requests,
                self.buffered_request_timeout_millis == old(self).buffered_request_timeout_millis,
                timeout == self.buffered_request_timeout_millis,
                k + self.queue@.len() == total,
                total == original.len(),
                forall|i: int| 0 <= i < original.len() ==> (#[trigger] original[i]).enqueued_at <= now,
                self.queue@ == original.skip(k as int),
                kept@ == spec_sweep(original.take(k as int), now, timeout).0,
                expired@ == spec_sweep(original.take(k as int), now, timeout).1,
                kept@.len() + expired@.len() == k,
            decreases self.queue@.len(),
        {
            let req = self.queue.remove(0);
            proof {
                assert(req == original[k as int]);
                assert(original.take(k + 1).drop_last() =~= original.take(k as int));
                assert(original.take(k + 1).last() == original[k as int]);
            }
            if now - req.enqueued_at >= timeout {
                expired.push(req);
            } else {
                kept.push(req);
            }
            k = k + 1;
            proof {
                assert(self.queue@ =~= original.skip(k as int));
            }
        }
        proof {
            assert(original.take(total as int) =~= original);
        }
        self.queue = kept;
        proof {
            lemma_sweep_lengths(original, now, timeout);
        }
        expired
    }

    /// The buffered counter, as the management API reports it.
    pub fn snapshot(&self) -> (r: BufferedRequestManagerSnapshot)
        requires
            self.wf(),
        ensures
            r.buffered_requests_current == self.queue@.len(),
    {
        BufferedRequestManagerSnapshot { buffered_requests_current: self.queue.len() as i32 }
    }
}

/// A sweep partitions the queue: kept and removed together are as long as
/// the queue was.
proof fn lemma_sweep_lengths(q: Seq<BufferedRequest>, now: u64, timeout: u64)
    ensures
        spec_sweep(q, now, timeout).0.len() + spec_sweep(q, now, timeout).1.len() == q.len(),
    decreases q.len(),
{
    if q.len() > 0 {
        lemma_sweep_lengths(q.drop_last(), now, timeout);
    }
}

/// The single terminal response an admission rejection produces.
pub fn rejection_message(request_id: String) -> (r: Message)
    ensures
        spec_is_terminal_message(r),
        spec_message_request_id(r) == Some(request_id@),
        r matches Message::Response(env) && env.response is TooManyBufferedRequests,
{
    Message::Response(
        ResponseEnvelope { request_id, response: Response::TooManyBufferedRequests },
    )
}

/// The single terminal response a timed-out buffered request produces.
pub fn timeout_message(request_id: String) -> (r: Message)
    ensures
        spec_is_terminal_message(r),
        spec_message_request_id(r) == Some(request_id@),
        r matches Message::Response(env) && env.response is Timeout,
{
    Message::Response(ResponseEnvelope { request_id, response: Response::Timeout })
}


/// Law: the buffered count never exceeds the configured limit. The queue
/// of a well-formed manager is bounded by the depth limit at all times
/// (a negative configured limit admits nothing).
pub proof fn lemma_buffered_count_bounded(manager: &BufferedRequestManager)
    requires
        manager.wf(),
    ensures
        manager.queue@.len() <= (if manager.max_buffered_requests < 0 {
            0int
        } else {
            manager.max_buffered_requests as int
        }),
{
}

/// Deliver the single terminal rejection for an admission overflow: the
/// request's stream, if it is live, receives exactly one
/// `TooManyBufferedRequests` response and completes; nothing else is ever
/// sent on it afterwards. The stream completes exactly when a live stream
/// bears the id.
pub fn reject_admission(pending: &mut PendingRequests, request_id: String) -> (r: RouteOutcome)
    requires
        old(pending).wf(),
    ensures
        final(pending).wf(),
        r is CompletedStream <==> exists|i: int|
            0 <= i < old(pending).streams@.len() && (#[trigger] old(pending).streams@[i]).status
                is Live && old(pending).streams@[i].request_id@ == request_id@,
        r matches RouteOutcome::CompletedStream(i) ==> {
            &&& i < final(pending).streams@.len()
            &&& final(pending).streams@[i as int].status is Completed
            &&& final(pending).streams@[i as int].request_id@ == request_id@
            &&& final(pending).streams@[i as int].delivered@.len() == old(
                pending,
            ).streams@[i as int].delivered@.len() + 1
            &&& (final(pending).streams@[i as int].delivered@.last()
                matches Message::Response(env) && env.response is TooManyBufferedRequests)
        },
        !(r is CompletedStream) ==> *final(pending) == *old(pending),
{
    let message = rejection_message(request_id);
    let outcome = pending.route(message);
    proof {
        match outcome {
            RouteOutcome::CompletedStream(i) => {
                assert(final(pending).streams@[i as int].delivered@.last() == message);
            },
            RouteOutcome::Delivered(_) => {
                assert(false);
            },
            RouteOutcome::Discarded => {},
        }
    }
    outcome
}

} // verus!

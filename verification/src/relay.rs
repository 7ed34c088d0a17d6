//! The per-connection response registry and routing loop.
//!
//! One WebSocket carries responses for many in-flight request ids. The
//! read task looks each incoming message up by its request id, forwards it
//! to that request's stream, and closes the stream on the first terminal
//! message. The registry records every request's status and its full
//! delivered stream for the life of its connection, which is what the
//! stream laws below are stated over.

use vstd::prelude::*;

use crate::error::Error;
use crate::inference_client::Message;
use crate::inference_client::is_terminal_message;
use crate::inference_client::message_request_id;
use crate::inference_client::spec_is_terminal_message;
use crate::inference_client::spec_message_request_id;
use crate::jsonrpc::ErrorEnvelope;
use crate::jsonrpc::JsonRpcError;

verus! {

/// The JSON-RPC error code used when a connection drops mid-stream.
pub const CONNECTION_DROPPED_CODE: i32 = -32000;

/// Where one request's stream stands.
#[derive(Clone, Copy, Debug, PartialEq, Eq, Structural)]
pub enum StreamStatus {
    /// Registered; no terminal message delivered yet.
    Live,
    /// A terminal message has been delivered; later messages are discarded.
    Completed,
    /// The client went away before a terminal message; nothing more is sent.
    Cancelled,
}

/// One request's stream: its id, everything delivered to its client so
/// far, and its status.
#[derive(Clone, Debug, PartialEq, Eq)]
pub struct RequestStream {
    pub request_id: String,
    pub delivered: Vec<Message>,
    pub status: StreamStatus,
}

/// How many terminal messages `s` holds.
pub open spec fn terminal_count(s: Seq<Message>) -> nat
    decreases s.len(),
{
    if s.len() == 0 {
        0nat
    } else {
        terminal_count(s.drop_last()) + if spec_is_terminal_message(s.last()) {
            1nat
        } else {
            0nat
        }
    }
}

impl RequestStream {
    /// A stream is well formed when its status matches its history: a live
    /// or cancelled stream has no terminal message, and a completed stream
    /// has exactly one, in final position.
    pub open spec fn wf(&self) -> bool {
        match self.status {
            StreamStatus::Live => terminal_count(self.delivered@) == 0,
            StreamStatus::Completed => self.delivered@.len() > 0 && spec_is_terminal_message(
                self.delivered@.last(),
            ) && terminal_count(self.delivered@) == 1,
            StreamStatus::Cancelled => terminal_count(self.delivered@) == 0,
        }
    }
}

/// What routing one message did.
#[derive(Clone, Copy, Debug, PartialEq, Eq, Structural)]
pub enum RouteOutcome {
    /// The message was delivered to the live stream at this position.
    Delivered(usize),
    /// The message was delivered and was terminal: the stream completed.
    CompletedStream(usize),
    /// No live stream matches the message's request id: dropped.
    Discarded,
}

/// The registry of request streams multiplexed over one connection.
pub struct PendingRequests {
    pub streams: Vec<RequestStream>,
}

impl PendingRequests {
    /// Every stream is well formed and no two streams share a request id.
    pub open spec fn wf(&self) -> bool {
        &&& forall|i: int| 0 <= i < self.streams@.len() ==> (#[trigger] self.streams@[i]).wf()
        &&& forall|i: int, j: int|
            0 <= i < j < self.streams@.len() ==> (#[trigger] self.streams@[i]).request_id@ != (
            #[trigger] self.streams@[j]).request_id@
    }

    /// An empty registry.
    pub fn new() -> (r: Self)
        ensures
            r.wf(),
            r.streams@.len() == 0,
    {
        PendingRequests { streams: Vec::new() }
    }

    fn find_live(&self, id: &String) -> (r: Option<usize>)
        ensures
            match r {
                Some(i) => i < self.streams@.len() && self.streams@[i as int].status
                    is Live && self.streams@[i as int].request_id@ == id@,
                None => forall|i: int|
                    0 <= i < self.streams@.len() ==> !((#[trigger] self.streams@[i]).status
                        is Live && self.streams@[i].request_id@ == id@),
            },
    {
        let mut i: usize = 0;
        while i < self.streams.len()
            invariant
                i <= self.streams@.len(),
                forall|j: int|
                    0 <= j < i ==> !((#[trigger] self.streams@[j]).status
                        is Live && self.streams@[j].request_id@ == id@),
            decreases self.streams@.len() - i,
        {
            let live = match self.streams[i].status {
                StreamStatus::Live => true,
                _ => false,
            };
            if live && self.streams[i].request_id.eq(id) {
                return Some(i);
            }
            i = i + 1;
        }
        None
    }

    fn find_any(&self, id: &String) -> (r: bool)
        ensures
            r <==> exists|i: int|
                0 <= i < self.streams@.len() && (#[trigger] self.streams@[i]).request_id@ == id@,
    {
        let mut i: usize = 0;
        while i < self.streams.len()
            invariant
                i <= self.streams@.len(),
                forall|j: int|
                    0 <= j < i ==> (#[trigger] self.streams@[j]).request_id@ != id@,
            decreases self.streams@.len() - i,
        {
            if self.streams[i].request_id.eq(id) {
                return true;
            }
            i = i + 1;
        }
        false
    }

    /// Register a new request id. At most one stream per id may ever be
    /// registered: a second registration is an error and changes nothing.
    pub fn register(&mut self, request_id: String) -> (r: Result<(), Error>)
        requires
            old(self).wf(),
        ensures
            final(self).wf(),
            match r {
                Ok(()) => {
                    &&& final(self).streams@.len() == old(self).streams@.len() + 1
                    &&& forall|i: int|
                        0 <= i < old(self).streams@.len() ==> final(self).streams@[i] == old(
                            self,
                        ).streams@[i]
                    &&& final(self).streams@.last().request_id@ == request_id@
                    &&& final(self).streams@.last().delivered@.len() == 0
                    &&& final(self).streams@.last().status is Live
                },
                Err(_) => *final(self) == *old(self) && exists|i: int|
                    0 <= i < old(self).streams@.len() && (#[trigger] old(
                        self,
                    ).streams@[i]).request_id@ == request_id@,
            },
            r is Err <==> exists|i: int|
                0 <= i < old(self).streams@.len() && (#[trigger] old(self).streams@[i]).request_id@
                    == request_id@,
    {
        if self.find_any(&request_id) {
            return Err(Error::Other("request id already registered".to_owned()));
        }
        let entry = RequestStream { request_id, delivered: Vec::new(), status: StreamStatus::Live };
        self.streams.push(entry);
        Ok(())
    }

    /// Route one incoming message: deliver it to the live stream bearing
    /// its request id, completing the stream when the message is terminal;
    /// a message with no id or no live stream is discarded.
    pub fn route(&mut self, message: Message) -> (r: RouteOutcome)
        requires
            old(self).wf(),
        ensures
            final(self).wf(),
            final(self).streams@.len() == old(self).streams@.len(),
            match r {
                RouteOutcome::Delivered(i) => {
                    &&& i < old(self).streams@.len()
                    &&& !spec_is_terminal_message(message)
                    &&& spec_message_request_id(message) == Some(
                        old(self).streams@[i as int].request_id@,
                    )
                    &&& old(self).streams@[i as int].status is Live
                    &&& final(self).streams@[i as int].status is Live
                    &&& final(self).streams@[i as int].request_id == old(
                        self,
                    ).streams@[i as int].request_id
                    &&& final(self).streams@[i as int].delivered@ == old(
                        self,
                    ).streams@[i as int].delivered@.push(message)
                    &&& forall|j: int|
                        0 <= j < old(self).streams@.len() && j != i ==> final(self).streams@[j]
                            == old(self).streams@[j]
                },
                RouteOutcome::CompletedStream(i) => {
                    &&& i < old(self).streams@.len()
                    &&& spec_is_terminal_message(message)
                    &&& spec_message_request_id(message) == Some(
                        old(self).streams@[i as int].request_id@,
                    )
                    &&& old(self).streams@[i as int].status is Live
                    &&& final(self).streams@[i as int].status is Completed
                    &&& final(self).streams@[i as int].request_id == old(
                        self,
                    ).streams@[i as int].request_id
                    &&& final(self).streams@[i as int].delivered@ == old(
                        self,
                    ).streams@[i as int].delivered@.push(message)
                    &&& forall|j: int|
                        0 <= j < old(self).streams@.len() && j != i ==> final(self).streams@[j]
                            == old(self).streams@[j]
                },
                RouteOutcome::Discarded => *final(self) == *old(self) && (match
                    spec_message_request_id(message) {
                    Some(id) => forall|i: int|
                        0 <= i < old(self).streams@.len() ==> !((#[trigger] old(
                            self,
                        ).streams@[i]).status is Live && old(self).streams@[i].request_id@ == id),
                    None => true,
                }),
            },
    {
        let terminal = is_terminal_message(&message);
        let idx = match message_request_id(&message) {
            Some(id) => self.find_live(id),
            None => None,
        };
        match idx {
            Some(i) => {
                let entry = &mut self.streams[i];
                let ghost pre = entry.delivered@;
                entry.delivered.push(message);
                proof {
                    assert(entry.delivered@.drop_last() =~= pre);
                }
                if terminal {
                    entry.status = StreamStatus::Completed;
                    RouteOutcome::CompletedStream(i)
                } else {
                    RouteOutcome::Delivered(i)
                }
            },
            None => RouteOutcome::Discarded,
        }
    }

    /// Cancel the live stream with this id, if any: it is removed from
    /// routing and nothing more is ever sent on it. Succeeds exactly when
    /// a live stream bears the id.
    pub fn cancel(&mut self, request_id: &String) -> (r: bool)
        requires
            old(self).wf(),
        ensures
            final(self).wf(),
            final(self).streams@.len() == old(self).streams@.len(),
            r <==> exists|i: int|
                0 <= i < old(self).streams@.len() && (#[trigger] old(self).streams@[i]).status
                    is Live && old(self).streams@[i].request_id@ == request_id@,
            r ==> exists|i: int|
                {
                    &&& 0 <= i < old(self).streams@.len()
                    &&& (#[trigger] old(self).streams@[i]).status is Live
                    &&& old(self).streams@[i].request_id@ == request_id@
                    &&& final(self).streams@[i].status is Cancelled
                    &&& final(self).streams@[i].request_id == old(self).streams@[i].request_id
                    &&& final(self).streams@[i].delivered == old(self).streams@[i].delivered
                    &&& forall|j: int|
                        0 <= j < old(self).streams@.len() && j != i ==> final(self).streams@[j]
                            == old(self).streams@[j]
                },
            !r ==> *final(self) == *old(self),
    {
        match self.find_live(request_id) {
            Some(i) => {
                let entry = &mut self.streams[i];
                entry.status = StreamStatus::Cancelled;
                true
            },
            None => false,
        }
    }

    /// The connection closed: every live stream receives exactly one
    /// terminal `ConnectionDropped` error bearing its request id, and
    /// completes. Streams already completed or cancelled are untouched.
    pub fn close_connection(&mut self)
        requires
            old(self).wf(),
        ensures
            final(self).wf(),
            final(self).streams@.len() == old(self).streams@.len(),
            forall|i: int|
                0 <= i < old(self).streams@.len() && !((#[trigger] old(self).streams@[i]).status
                    is Live) ==> final(self).streams@[i] == old(self).streams@[i],
            forall|i: int|
                0 <= i < old(self).streams@.len() && (#[trigger] old(self).streams@[i]).status
                    is Live ==> {
                    let e = old(self).streams@[i];
                    let f = final(self).streams@[i];
                    &&& f.status is Completed
                    &&& f.request_id == e.request_id
                    &&& f.delivered@.len() == e.delivered@.len() + 1
                    &&& f.delivered@.take(e.delivered@.len() as int) == e.delivered@
                    &&& f.delivered@.last() matches Message::Error(env)
                    &&& (f.delivered@.last() matches Message::Error(env) ==> env.request_id
                        matches Some(id) && id@ == e.request_id@ && env.error.code
                        == CONNECTION_DROPPED_CODE)
                    &&& spec_is_terminal_message(f.delivered@.last())
                },
            forall|i: int|
                0 <= i < final(self).streams@.len() ==> !((#[trigger] final(self).streams@[i]).status
                    is Live),
    {
        let n = self.streams.len();
        let mut i: usize = 0;
        while i < n
            invariant
                old(self).wf(),
                n == self.streams@.len(),
                n == old(self).streams@.len(),
                i <= n,
                forall|j: int| i <= j < n ==> self.streams@[j] == old(self).streams@[j],
                forall|j: int|
                    0 <= j < i && !((#[trigger] old(self).streams@[j]).status is Live) ==> self
                        .streams@[j] == old(self).streams@[j],
                forall|j: int|
                    0 <= j < i && (#[trigger] old(self).streams@[j]).status is Live ==> {
                        let e = old(self).streams@[j];
                        let f = self.streams@[j];
                        &&& f.status is Completed
                        &&& f.request_id == e.request_id
                        &&& f.delivered@.len() == e.delivered@.len() + 1
                        &&& f.delivered@.take(e.delivered@.len() as int) == e.delivered@
                        &&& f.delivered@.last() matches Message::Error(env)
                        &&& (f.delivered@.last() matches Message::Error(env) ==> env.request_id
                            matches Some(id) && id@ == e.request_id@ && env.error.code
                            == CONNECTION_DROPPED_CODE)
                        &&& spec_is_terminal_message(f.delivered@.last())
                        &&& f.wf()
                    },
            decreases n - i,
        {
            let live = match self.streams[i].status {
                StreamStatus::Live => true,
                _ => false,
            };
            if live {
                assert(old(self).streams@[i as int].status is Live);
                let dropped = Message::Error(
                    ErrorEnvelope {
                        request_id: Some(self.streams[i].request_id.clone()),
                        error: JsonRpcError {
                            code: CONNECTION_DROPPED_CODE,
                            description: "connection dropped before a terminal response".to_owned(),
                        },
                    },
                );
                let entry = &mut self.streams[i];
                let ghost pre = entry.delivered@;
                entry.delivered.push(dropped);
                entry.status = StreamStatus::Completed;
                proof {
                    assert(entry.delivered@.drop_last() =~= pre);
                    assert(entry.delivered@.take(pre.len() as int) =~= pre);
                }
            }
            i = i + 1;
        }
        proof {
            assert forall|k: int|
                0 <= k < self.streams@.len() implies (#[trigger] self.streams@[k]).wf() && !(
            self.streams@[k].status is Live) && self.streams@[k].request_id@ == old(
                self,
            ).streams@[k].request_id@ by {
                if old(self).streams@[k].status is Live {
                    assert(self.streams@[k].wf());
                } else {
                    assert(self.streams@[k] == old(self).streams@[k]);
                    assert(old(self).streams@[k].wf());
                }
            }
        }
    }
}

/// The messages one request's client receives while `frames` arrive on
/// its connection: exactly those addressed to `id`, in arrival order, up
/// to and including the first terminal one. The flag says whether that
/// terminal message arrived.
pub open spec fn spec_deliveries(frames: Seq<Message>, id: Seq<char>) -> (Seq<Message>, bool)
    decreases frames.len(),
{
    if frames.len() == 0 {
        (Seq::<Message>::empty(), false)
    } else {
        let prev = spec_deliveries(frames.drop_last(), id);
        let m = frames.last();
        if prev.1 {
            prev
        } else if spec_message_request_id(m) == Some(id) {
            (prev.0.push(m), spec_is_terminal_message(m))
        } else {
            prev
        }
    }
}

impl PendingRequests {
    /// Route a whole sequence of incoming frames, in order.
    ///
    /// Law: within a single request id, the client receives exactly the
    /// frames the connection carried for that id, in the order they
    /// arrived, cut off after the first terminal one. Streams not live at
    /// the start are untouched.
    pub fn route_all(&mut self, frames: Vec<Message>)
        requires
            old(self).wf(),
        ensures
            final(self).wf(),
            final(self).streams@.len() == old(self).streams@.len(),
            forall|i: int|
                0 <= i < old(self).streams@.len() && (#[trigger] old(self).streams@[i]).status
                    is Live ==> {
                    let e = old(self).streams@[i];
                    let d = spec_deliveries(frames@, e.request_id@);
                    &&& final(self).streams@[i].request_id == e.request_id
                    &&& final(self).streams@[i].delivered@ == e.delivered@ + d.0
                    &&& (if d.1 {
                        final(self).streams@[i].status is Completed
                    } else {
                        final(self).streams@[i].status is Live
                    })
                },
            forall|i: int|
                0 <= i < old(self).streams@.len() && !((#[trigger] old(self).streams@[i]).status
                    is Live) ==> final(self).streams@[i] == old(self).streams@[i],
    {
        let ghost original = frames@;
        let mut rest = frames;
        let total = rest.len();
        let mut k: usize = 0;
        proof {
            assert(original.len() == total);
            assert(original.take(0) =~= Seq::<Message>::empty());
            assert(original.skip(0) =~= original);
        }
        while rest.len() > 0
            invariant
                old(self).wf(),
                self.wf(),
                self.streams@.len() == old(self).streams@.len(),
                k + rest@.len() == original.len(),
                original.len() == total,
                rest@ == original.skip(k as int),
                forall|i: int|
                    0 <= i < old(self).streams@.len() && (#[trigger] old(self).streams@[i]).status
                        is Live ==> {
                        let e = old(self).streams@[i];
                        let d = spec_deliveries(original.take(k as int), e.request_id@);
                        &&& self.streams@[i].request_id == e.request_id
                        &&& self.streams@[i].delivered@ == e.delivered@ + d.0
                        &&& (if d.1 {
                            self.streams@[i].status is Completed
                        } else {
                            self.streams@[i].status is Live
                        })
                    },
                forall|i: int|
                    0 <= i < old(self).streams@.len() && !((#[trigger] old(
                        self,
                    ).streams@[i]).status is Live) ==> self.streams@[i] == old(self).streams@[i],
            decreases rest@.len(),
        {
            let m = rest.remove(0);
            proof {
                assert(m == original[k as int]);
                assert(original.take(k + 1).drop_last() =~= original.take(k as int));
                assert(original.take(k + 1).last() == original[k as int]);
            }
            let ghost pre = *self;
            let outcome = self.route(m);
            proof {
                assert forall|i: int|
                    0 <= i < old(self).streams@.len() && (#[trigger] old(
                        self,
                    ).streams@[i]).status is Live implies {
                    let e = old(self).streams@[i];
                    let d = spec_deliveries(original.take(k + 1), e.request_id@);
                    &&& self.streams@[i].request_id == e.request_id
                    &&& self.streams@[i].delivered@ == e.delivered@ + d.0
                    &&& (if d.1 {
                        self.streams@[i].status is Completed
                    } else {
                        self.streams@[i].status is Live
                    })
                } by {
                    let e = old(self).streams@[i];
                    let dprev = spec_deliveries(original.take(k as int), e.request_id@);
                    match outcome {
                        RouteOutcome::Delivered(j) => {
                            if i == j {
                                assert(spec_message_request_id(m) == Some(e.request_id@));
                                assert(!dprev.1);
                                assert(e.delivered@ + dprev.0.push(m) =~= (e.delivered@
                                    + dprev.0).push(m));
                            } else {
                                assert(pre.streams@[j as int].request_id@ == old(
                                    self,
                                ).streams@[j as int].request_id@);
                                assert(e.request_id@ != old(
                                    self,
                                ).streams@[j as int].request_id@);
                            }
                        },
                        RouteOutcome::CompletedStream(j) => {
                            if i == j {
                                assert(spec_message_request_id(m) == Some(e.request_id@));
                                assert(!dprev.1);
                                assert(e.delivered@ + dprev.0.push(m) =~= (e.delivered@
                                    + dprev.0).push(m));
                            } else {
                                assert(pre.streams@[j as int].request_id@ == old(
                                    self,
                                ).streams@[j as int].request_id@);
                                assert(e.request_id@ != old(
                                    self,
                                ).streams@[j as int].request_id@);
                            }
                        },
                        RouteOutcome::Discarded => {
                            if !dprev.1 {
                                assert(pre.streams@[i].status is Live);
                                assert(pre.streams@[i].request_id@ == e.request_id@);
                                if spec_message_request_id(m) == Some(e.request_id@) {
                                    assert(false);
                                }
                            }
                        },
                    }
                }
            }
            k = k + 1;
            proof {
                assert(rest@ =~= original.skip(k as int));
            }
        }
        proof {
            assert(original.take(original.len() as int) =~= original);
        }
    }
}

/// Law: a request whose stream completed received exactly one terminal
/// message, and it came last; a cancelled or still-live request received
/// none. With `close_connection` leaving no stream live, every registered
/// and uncancelled request ends with exactly one terminal message.
pub proof fn lemma_one_terminal_per_completed_stream(p: &PendingRequests, i: int)
    requires
        p.wf(),
        0 <= i < p.streams@.len(),
    ensures
        p.streams@[i].status is Completed ==> terminal_count(p.streams@[i].delivered@) == 1
            && spec_is_terminal_message(p.streams@[i].delivered@.last()),
        !(p.streams@[i].status is Completed) ==> terminal_count(p.streams@[i].delivered@) == 0,
{
    assert(p.streams@[i].wf());
}

} // verus!

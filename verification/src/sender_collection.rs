//! The keyed fan-out registries: one per response family, each mapping a
//! request id to that request's response sink.
//!
//! The sinks themselves are connection plumbing outside the library; the
//! registry tracks, for each live request id, what has been pushed to its
//! sink and whether its receiver is still there, and enforces the two
//! rules of the spec: at most one registration per id, and removal on the
//! first terminal push or push failure.

use vstd::prelude::*;

use crate::agent_rpc::ModelMetadata;
use crate::error::Error;
use crate::inference_client::EmbeddingResult;
use crate::inference_client::GeneratedTokenResult;
use crate::state::ChatTemplate;

verus! {

/// A value that streams back to a client and knows when its stream ends.
pub trait StreamableResult: Sized {
    /// Whether this value ends its stream.
    spec fn spec_is_done(&self) -> bool;

    /// Decide whether this value ends its stream.
    fn is_done(&self) -> (r: bool)
        ensures
            r == self.spec_is_done(),
    ;
}

impl StreamableResult for GeneratedTokenResult {
    open spec fn spec_is_done(&self) -> bool {
        GeneratedTokenResult::spec_is_done(self)
    }

    fn is_done(&self) -> (r: bool) {
        GeneratedTokenResult::is_done(self)
    }
}

impl StreamableResult for EmbeddingResult {
    open spec fn spec_is_done(&self) -> bool {
        EmbeddingResult::spec_is_done(self)
    }

    fn is_done(&self) -> (r: bool) {
        EmbeddingResult::is_done(self)
    }
}

impl StreamableResult for Option<ChatTemplate> {
    /// A chat template override answer is a single response.
    open spec fn spec_is_done(&self) -> bool {
        true
    }

    fn is_done(&self) -> (r: bool) {
        true
    }
}

impl StreamableResult for Option<ModelMetadata> {
    /// A model metadata answer is a single response.
    open spec fn spec_is_done(&self) -> bool {
        true
    }

    fn is_done(&self) -> (r: bool) {
        true
    }
}

/// One live registration: the request id, what has been pushed to its
/// sink, and whether the receiving end is still there.
pub struct SenderEntry<V> {
    pub request_id: String,
    pub sent: Vec<V>,
    pub receiver_open: bool,
}

/// What one send did.
#[derive(Clone, Copy, Debug, PartialEq, Eq, Structural)]
pub enum SendOutcome {
    /// Pushed; the stream goes on.
    Sent,
    /// Pushed a terminal value; the registration was removed.
    SentAndRemoved,
    /// The receiver was gone; the registration was removed unsent.
    SendFailed,
    /// No registration bears this id; the value was discarded.
    NotFound,
}

/// A keyed registry from request id to response sink, for one response
/// family.
pub struct SenderCollection<V> {
    pub entries: Vec<SenderEntry<V>>,
}

impl<V: StreamableResult> SenderCollection<V> {
    /// No two registrations share a request id.
    pub open spec fn wf(&self) -> bool {
        forall|i: int, j: int|
            0 <= i < j < self.entries@.len() ==> (#[trigger] self.entries@[i]).request_id@ != (
            #[trigger] self.entries@[j]).request_id@
    }

    /// An empty registry.
    pub fn new() -> (r: Self)
        ensures
            r.wf(),
            r.entries@.len() == 0,
    {
        SenderCollection { entries: Vec::new() }
    }

    fn find(&self, id: &String) -> (r: Option<usize>)
        ensures
            match r {
                Some(i) => i < self.entries@.len() && self.entries@[i as int].request_id@ == id@,
                None => forall|i: int|
                    0 <= i < self.entries@.len() ==> (#[trigger] self.entries@[i]).request_id@
                        != id@,
            },
    {
        let mut i: usize = 0;
        while i < self.entries.len()
            invariant
                i <= self.entries@.len(),
                forall|j: int|
                    0 <= j < i ==> (#[trigger] self.entries@[j]).request_id@ != id@,
            decreases self.entries@.len() - i,
        {
            if self.entries[i].request_id.eq(id) {
                return Some(i);
            }
            i = i + 1;
        }
        None
    }

    /// Register a sink under a request id. A second registration for the
    /// same id is an error and changes nothing.
    pub fn insert(&mut self, request_id: String) -> (r: Result<(), Error>)
        requires
            old(self).wf(),
        ensures
            final(self).wf(),
            match r {
                Ok(()) => {
                    &&& final(self).entries@.len() == old(self).entries@.len() + 1
                    &&& forall|i: int|
                        0 <= i < old(self).entries@.len() ==> final(self).entries@[i] == old(
                            self,
                        ).entries@[i]
                    &&& final(self).entries@.last().request_id@ == request_id@
                    &&& final(self).entries@.last().sent@.len() == 0
                    &&& final(self).entries@.last().receiver_open
                },
                Err(_) => *final(self) == *old(self),
            },
            r is Err <==> exists|i: int|
                0 <= i < old(self).entries@.len() && (#[trigger] old(
                    self,
                ).entries@[i]).request_id@ == request_id@,
    {
        match self.find(&request_id) {
            Some(_) => Err(Error::Other("request id already registered".to_owned())),
            None => {
                self.entries.push(
                    SenderEntry { request_id, sent: Vec::new(), receiver_open: true },
                );
                Ok(())
            },
        }
    }

    /// Remove the registration for this id, if any.
    pub fn remove(&mut self, request_id: &String) -> (r: bool)
        requires
            old(self).wf(),
        ensures
            final(self).wf(),
            r ==> exists|k: int|
                {
                    &&& 0 <= k < old(self).entries@.len()
                    &&& (#[trigger] old(self).entries@[k]).request_id@ == request_id@
                    &&& final(self).entries@ == old(self).entries@.remove(k)
                },
            !r ==> *final(self) == *old(self) && forall|k: int|
                0 <= k < old(self).entries@.len() ==> (#[trigger] old(
                    self,
                ).entries@[k]).request_id@ != request_id@,
    {
        match self.find(request_id) {
            Some(i) => {
                self.entries.remove(i);
                proof {
                    lemma_remove_keeps_unique(old(self).entries@, i as int);
                }
                true
            },
            None => false,
        }
    }

    /// Record that the receiving end of this id's sink is gone; the next
    /// send to it fails and unregisters it. Succeeds exactly when a
    /// registration bears the id.
    pub fn close_receiver(&mut self, request_id: &String) -> (r: bool)
        requires
            old(self).wf(),
        ensures
            final(self).wf(),
            r <==> exists|k: int|
                0 <= k < old(self).entries@.len() && (#[trigger] old(
                    self,
                ).entries@[k]).request_id@ == request_id@,
            r ==> exists|k: int|
                {
                    &&& 0 <= k < old(self).entries@.len()
                    &&& (#[trigger] old(self).entries@[k]).request_id@ == request_id@
                    &&& final(self).entries@ == old(self).entries@.update(
                        k,
                        SenderEntry {
                            receiver_open: false,
                            ..old(self).entries@[k]
                        },
                    )
                },
            !r ==> *final(self) == *old(self),
    {
        match self.find(request_id) {
            Some(i) => {
                let entry = &mut self.entries[i];
                entry.receiver_open = false;
                true
            },
            None => false,
        }
    }

    /// The idiomatic write: look the id up, push the value into its sink,
    /// and unregister on a terminal value or a push failure. A value for
    /// an unknown id is discarded.
    pub fn send_and_remove_if_terminal(&mut self, request_id: &String, value: V) -> (r:
        SendOutcome)
        requires
            old(self).wf(),
        ensures
            final(self).wf(),
            match r {
                SendOutcome::Sent => exists|k: int|
                    {
                        &&& 0 <= k < old(self).entries@.len()
                        &&& (#[trigger] old(self).entries@[k]).request_id@ == request_id@
                        &&& old(self).entries@[k].receiver_open
                        &&& !value.spec_is_done()
                        &&& final(self).entries@ == old(self).entries@.update(
                            k,
                            SenderEntry {
                                request_id: old(self).entries@[k].request_id,
                                sent: final(self).entries@[k].sent,
                                receiver_open: true,
                            },
                        )
                        &&& final(self).entries@[k].sent@ == old(self).entries@[k].sent@.push(
                            value,
                        )
                    },
                SendOutcome::SentAndRemoved => exists|k: int|
                    {
                        &&& 0 <= k < old(self).entries@.len()
                        &&& (#[trigger] old(self).entries@[k]).request_id@ == request_id@
                        &&& old(self).entries@[k].receiver_open
                        &&& value.spec_is_done()
                        &&& final(self).entries@ == old(self).entries@.remove(k)
                    },
                SendOutcome::SendFailed => exists|k: int|
                    {
                        &&& 0 <= k < old(self).entries@.len()
                        &&& (#[trigger] old(self).entries@[k]).request_id@ == request_id@
                        &&& !old(self).entries@[k].receiver_open
                        &&& final(self).entries@ == old(self).entries@.remove(k)
                    },
                SendOutcome::NotFound => *final(self) == *old(self) && forall|k: int|
                    0 <= k < old(self).entries@.len() ==> (#[trigger] old(
                        self,
                    ).entries@[k]).request_id@ != request_id@,
            },
    {
        match self.find(request_id) {
            Some(i) => {
                if !self.entries[i].receiver_open {
                    self.entries.remove(i);
                    proof {
                        lemma_remove_keeps_unique(old(self).entries@, i as int);
                    }
                    return SendOutcome::SendFailed;
                }
                let terminal = value.is_done();
                if terminal {
                    self.entries.remove(i);
                    proof {
                        lemma_remove_keeps_unique(old(self).entries@, i as int);
                    }
                    SendOutcome::SentAndRemoved
                } else {
                    let entry = &mut self.entries[i];
                    let ghost pre = entry.sent@;
                    entry.sent.push(value);
                    SendOutcome::Sent
                }
            },
            None => SendOutcome::NotFound,
        }
    }

    /// The owning connection is shutting down: unregister everything and
    /// hand back the live ids, in order, so that each can be failed with
    /// a terminal error.
    pub fn drain_ids(&mut self) -> (r: Vec<String>)
        requires
            old(self).wf(),
        ensures
            final(self).wf(),
            final(self).entries@.len() == 0,
            r@.len() == old(self).entries@.len(),
            forall|i: int|
                0 <= i < r@.len() ==> r@[i]@ == (#[trigger] old(self).entries@[i]).request_id@,
    {
        let mut ids: Vec<String> = Vec::new();
        let ghost original = self.entries@;
        let total = self.entries.len();
        while self.entries.len() > 0
            invariant
                ids@.len() + self.entries@.len() == total,
                total == original.len(),
                self.entries@ == original.skip(ids@.len() as int),
                forall|i: int|
                    0 <= i < ids@.len() ==> ids@[i]@ == (#[trigger] original[i]).request_id@,
            decreases self.entries@.len(),
        {
            let ghost k = ids@.len() as int;
            let entry = self.entries.remove(0);
            proof {
                assert(entry == original[k]);
            }
            ids.push(entry.request_id);
            proof {
                assert(self.entries@ =~= original.skip(ids@.len() as int));
            }
        }
        ids
    }
}

/// Removing an entry from a registry with unique ids keeps ids unique.
proof fn lemma_remove_keeps_unique<V>(entries: Seq<SenderEntry<V>>, k: int)
    requires
        0 <= k < entries.len(),
        forall|i: int, j: int|
            0 <= i < j < entries.len() ==> (#[trigger] entries[i]).request_id@ != (
            #[trigger] entries[j]).request_id@,
    ensures
        forall|i: int, j: int|
            0 <= i < j < entries.remove(k).len() ==> (#[trigger] entries.remove(k)[i]).request_id@
                != (#[trigger] entries.remove(k)[j]).request_id@,
{
    let e = entries.remove(k);
    assert forall|i: int, j: int|
        0 <= i < j < e.len() implies (#[trigger] e[i]).request_id@ != (
    #[trigger] e[j]).request_id@ by {
        let i0 = if i < k {
            i
        } else {
            i + 1
        };
        let j0 = if j < k {
            j
        } else {
            j + 1
        };
        assert(e[i] == entries[i0]);
        assert(e[j] == entries[j0]);
    }
}

/// The registry for streamed tokens.
pub type GenerateTokensSenderCollection = SenderCollection<GeneratedTokenResult>;

/// The registry for streamed embedding results.
pub type EmbeddingSenderCollection = SenderCollection<EmbeddingResult>;

/// The registry for chat template override answers.
pub type ChatTemplateOverrideSenderCollection = SenderCollection<Option<ChatTemplate>>;

/// The registry for model metadata answers.
pub type ModelMetadataSenderCollection = SenderCollection<Option<ModelMetadata>>;

} // verus!

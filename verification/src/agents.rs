//! Per-agent state: slot accounting, the agent lifecycle, the pool of
//! connected agents, and the reconciler's decision.
//!
//! Each status notification replaces an agent's slot snapshot wholesale;
//! the snapshot is the source of truth. Between snapshots the dispatcher
//! may optimistically reserve idle slots; the next snapshot reconciles.

use vstd::prelude::*;

use crate::state::AgentDesiredState;

verus! {

/// The state of one execution slot.
#[derive(Clone, Copy, Debug, PartialEq, Eq, Structural)]
pub enum SlotState {
    Idle,
    Busy,
    SlotError,
}

/// One slot's last reported state.
#[derive(Clone, Debug, PartialEq, Eq)]
pub struct SlotSnapshotEntry {
    pub state: SlotState,
    pub model_id: String,
    pub last_update_millis: u64,
}

/// The whole-agent slot snapshot carried by a status notification.
#[derive(Clone, Debug, PartialEq, Eq)]
pub struct SlotAggregatedStatusSnapshot {
    pub slots: Vec<SlotSnapshotEntry>,
}

/// The parameters of an `UpdateAgentStatus` notification.
#[derive(Clone, Debug, PartialEq, Eq)]
pub struct UpdateAgentStatusParams {
    pub slot_aggregated_status_snapshot: SlotAggregatedStatusSnapshot,
}

/// How many of the first `n` slots are busy.
pub open spec fn busy_count_prefix(slots: Seq<SlotSnapshotEntry>, n: int) -> nat
    decreases n,
{
    if n <= 0 {
        0nat
    } else {
        busy_count_prefix(slots, n - 1) + if slots[n - 1].state is Busy {
            1nat
        } else {
            0nat
        }
    }
}

/// How many slots of a snapshot are busy.
pub open spec fn spec_busy_slots(slots: Seq<SlotSnapshotEntry>) -> nat {
    busy_count_prefix(slots, slots.len() as int)
}

/// How many of the first `n` slots are idle.
pub open spec fn idle_count_prefix(slots: Seq<SlotSnapshotEntry>, n: int) -> nat
    decreases n,
{
    if n <= 0 {
        0nat
    } else {
        idle_count_prefix(slots, n - 1) + if slots[n - 1].state is Idle {
            1nat
        } else {
            0nat
        }
    }
}

/// How many slots of a snapshot are idle.
pub open spec fn spec_idle_slots(slots: Seq<SlotSnapshotEntry>) -> nat {
    idle_count_prefix(slots, slots.len() as int)
}

/// Law: an agent is never accounted more busy slots than it declared. The
/// busy count of any snapshot prefix is bounded by the prefix length, so
/// the busy count of the whole snapshot is bounded by the declared slot
/// count.
pub proof fn lemma_busy_slots_le_declared(slots: Seq<SlotSnapshotEntry>)
    ensures
        spec_busy_slots(slots) <= slots.len(),
        spec_busy_slots(slots) + spec_idle_slots(slots) <= slots.len(),
{
    lemma_counts_prefix_bound(slots, slots.len() as int);
}

proof fn lemma_counts_prefix_bound(slots: Seq<SlotSnapshotEntry>, n: int)
    requires
        n <= slots.len(),
    ensures
        busy_count_prefix(slots, n) + idle_count_prefix(slots, n) <= if n <= 0 {
            0int
        } else {
            n
        },
    decreases n,
{
    if n > 0 {
        lemma_counts_prefix_bound(slots, n - 1);
    }
}

/// The lifecycle of one connected agent.
#[derive(Clone, Copy, Debug, PartialEq, Eq, Structural)]
pub enum AgentLifecycleState {
    /// Connected; no valid status notification received yet.
    Handshaking,
    /// Serving; dispatch is allowed.
    Active,
    /// Marked for removal; in-flight work completes, nothing new starts.
    Draining,
    /// The socket closed; the agent is gone.
    Closed,
}

/// The balancer's state for one connected agent.
pub struct AgentController {
    pub id: String,
    pub lifecycle: AgentLifecycleState,
    pub snapshot: SlotAggregatedStatusSnapshot,
    /// Slots optimistically taken at dispatch since the last snapshot.
    pub reserved: usize,
    /// The configuration last applied to this agent, if any.
    pub applicable: Option<AgentDesiredState>,
}

impl AgentController {
    /// The slot count the agent declared: the size of its last snapshot.
    pub open spec fn spec_declared_slots(&self) -> nat {
        self.snapshot.slots@.len()
    }

    /// Busy slots accounted to the agent: reported busy plus slots the
    /// dispatcher has optimistically reserved since the last snapshot.
    pub open spec fn spec_accounted_busy(&self) -> nat {
        (spec_busy_slots(self.snapshot.slots@) + self.reserved) as nat
    }

    /// Optimistic reservations never exceed the reported idle slots, so
    /// the accounted busy slots never exceed the declared count.
    pub open spec fn wf(&self) -> bool {
        self.reserved <= spec_idle_slots(self.snapshot.slots@)
    }

    /// A freshly connected agent: handshaking, no slots declared yet.
    pub fn new(id: String) -> (r: Self)
        ensures
            r.wf(),
            r.id@ == id@,
            r.lifecycle is Handshaking,
            r.spec_declared_slots() == 0,
            r.reserved == 0,
            r.applicable is None,
    {
        AgentController {
            id,
            lifecycle: AgentLifecycleState::Handshaking,
            snapshot: SlotAggregatedStatusSnapshot { slots: Vec::new() },
            reserved: 0,
            applicable: None,
        }
    }

    /// Apply a status notification: the snapshot is replaced wholesale,
    /// optimistic reservations are cleared, and a handshaking agent
    /// becomes active.
    pub fn update_status(&mut self, params: UpdateAgentStatusParams)
        requires
            old(self).wf(),
        ensures
            final(self).wf(),
            final(self).snapshot == params.slot_aggregated_status_snapshot,
            final(self).reserved == 0,
            final(self).id == old(self).id,
            final(self).applicable == old(self).applicable,
            final(self).lifecycle == (if old(self).lifecycle is Handshaking {
                AgentLifecycleState::Active
            } else {
                old(self).lifecycle
            }),
    {
        self.snapshot = params.slot_aggregated_status_snapshot;
        self.reserved = 0;
        if let AgentLifecycleState::Handshaking = self.lifecycle {
            self.lifecycle = AgentLifecycleState::Active;
        }
    }

    /// The agent's free slots: reported idle minus optimistically
    /// reserved.
    pub fn free_slots(&self) -> (r: usize)
        requires
            self.wf(),
        ensures
            r == spec_idle_slots(self.snapshot.slots@) - self.reserved,
    {
        let mut idle: usize = 0;
        let n = self.snapshot.slots.len();
        let mut i: usize = 0;
        while i < n
            invariant
                n == self.snapshot.slots@.len(),
                i <= n,
                idle == idle_count_prefix(self.snapshot.slots@, i as int),
                idle <= i,
            decreases n - i,
        {
            let is_idle = match self.snapshot.slots[i].state {
                SlotState::Idle => true,
                _ => false,
            };
            if is_idle {
                idle = idle + 1;
            }
            i = i + 1;
        }
        idle - self.reserved
    }

    /// Whether the agent can accept a dispatch for `model_id`: it is
    /// active, it has a free slot, and one of its idle slots serves the
    /// model.
    pub open spec fn spec_can_accept(&self, model_id: Seq<char>) -> bool {
        &&& self.lifecycle is Active
        &&& spec_idle_slots(self.snapshot.slots@) > self.reserved
        &&& exists|i: int|
            0 <= i < self.snapshot.slots@.len() && (#[trigger] self.snapshot.slots@[i]).state
                is Idle && self.snapshot.slots@[i].model_id@ == model_id
    }

    /// Decide whether this agent can accept a dispatch for `model_id`.
    pub fn can_accept(&self, model_id: &String) -> (r: bool)
        requires
            self.wf(),
        ensures
            r == self.spec_can_accept(model_id@),
    {
        let active = match self.lifecycle {
            AgentLifecycleState::Active => true,
            _ => false,
        };
        if !active {
            return false;
        }
        if self.free_slots() == 0 {
            return false;
        }
        let n = self.snapshot.slots.len();
        let mut i: usize = 0;
        while i < n
            invariant
                n == self.snapshot.slots@.len(),
                i <= n,
                self.lifecycle is Active,
                spec_idle_slots(self.snapshot.slots@) > self.reserved,
                forall|j: int|
                    0 <= j < i ==> !((#[trigger] self.snapshot.slots@[j]).state
                        is Idle && self.snapshot.slots@[j].model_id@ == model_id@),
            decreases n - i,
        {
            let is_idle = match self.snapshot.slots[i].state {
                SlotState::Idle => true,
                _ => false,
            };
            if is_idle && self.snapshot.slots[i].model_id.eq(model_id) {
                return true;
            }
            i = i + 1;
        }
        false
    }

    /// Optimistically take one slot at dispatch time. Fails when no free
    /// slot remains; the next snapshot reconciles either way.
    pub fn reserve_slot(&mut self) -> (r: bool)
        requires
            old(self).wf(),
        ensures
            final(self).wf(),
            final(self).id == old(self).id,
            final(self).lifecycle == old(self).lifecycle,
            final(self).snapshot == old(self).snapshot,
            final(self).applicable == old(self).applicable,
            r ==> final(self).reserved == old(self).reserved + 1,
            !r ==> final(self).reserved == old(self).reserved,
            r <==> spec_idle_slots(old(self).snapshot.slots@) > old(self).reserved,
            final(self).spec_accounted_busy() <= final(self).spec_declared_slots(),
    {
        let n = self.snapshot.slots.len();
        proof {
            lemma_busy_slots_le_declared(self.snapshot.slots@);
            assert(spec_idle_slots(self.snapshot.slots@) <= n);
        }
        if self.free_slots() > 0 {
            self.reserved = self.reserved + 1;
            true
        } else {
            false
        }
    }

    /// Mark the agent for removal: no new dispatches, in-flight requests
    /// complete.
    pub fn begin_draining(&mut self)
        requires
            old(self).wf(),
        ensures
            final(self).wf(),
            final(self).lifecycle is Draining,
            final(self).id == old(self).id,
            final(self).snapshot == old(self).snapshot,
            final(self).reserved == old(self).reserved,
            final(self).applicable == old(self).applicable,
    {
        self.lifecycle = AgentLifecycleState::Draining;
    }

    /// The socket closed: the agent is gone, whatever state it was in.
    pub fn close(&mut self)
        requires
            old(self).wf(),
        ensures
            final(self).wf(),
            final(self).lifecycle is Closed,
            final(self).id == old(self).id,
    {
        self.lifecycle = AgentLifecycleState::Closed;
    }
}

/// Law: the accounted busy slots of a well-formed agent never exceed its
/// declared slot count.
pub proof fn lemma_accounted_busy_le_declared(agent: &AgentController)
    requires
        agent.wf(),
    ensures
        agent.spec_accounted_busy() <= agent.spec_declared_slots(),
{
    lemma_busy_slots_le_declared(agent.snapshot.slots@);
}

/// What the reconciler tells one agent.
#[derive(Clone, Copy, Debug, PartialEq, Eq, Structural)]
pub enum ReconcileAction {
    /// The agent already matches the desired state.
    UpToDate,
    /// Send the desired configuration; the model is unchanged.
    SendConfiguration,
    /// Send the desired configuration and drain: the model changed.
    SendConfigurationAndDrain,
}

/// Compare an agent's applied configuration with the desired one and
/// decide what to send: nothing when they match, a configuration update
/// when they differ, and additionally draining when the model changed.
pub fn reconcile_agent(desired: &AgentDesiredState, agent: &AgentController) -> (r: ReconcileAction)
    ensures
        r is UpToDate <==> (agent.applicable matches Some(applied) && applied@ == desired@),
        r is SendConfigurationAndDrain <==> (agent.applicable matches Some(applied) && applied@
            != desired@ && applied@.model != desired@.model),
        r is SendConfiguration <==> (match agent.applicable {
            Some(applied) => applied@ != desired@ && applied@.model == desired@.model,
            None => true,
        }),
{
    match &agent.applicable {
        Some(applied) => {
            if applied.same_as(desired) {
                ReconcileAction::UpToDate
            } else if applied.model.same_as(&desired.model) {
                ReconcileAction::SendConfiguration
            } else {
                ReconcileAction::SendConfigurationAndDrain
            }
        },
        None => ReconcileAction::SendConfiguration,
    }
}


/// The pool of connected agents.
pub struct AgentPool {
    pub agents: Vec<AgentController>,
}

impl AgentPool {
    /// Every agent in the pool is well formed.
    pub open spec fn wf(&self) -> bool {
        forall|i: int| 0 <= i < self.agents@.len() ==> (#[trigger] self.agents@[i]).wf()
    }

    /// An empty pool.
    pub fn new() -> (r: Self)
        ensures
            r.wf(),
            r.agents@.len() == 0,
    {
        AgentPool { agents: Vec::new() }
    }

    /// Add a newly connected agent.
    pub fn add_agent(&mut self, agent: AgentController)
        requires
            old(self).wf(),
            agent.wf(),
        ensures
            final(self).wf(),
            final(self).agents@ == old(self).agents@.push(agent),
    {
        self.agents.push(agent);
    }

    /// The first agent that can accept a dispatch for `model_id`, if any.
    pub fn find_compatible(&self, model_id: &String) -> (r: Option<usize>)
        requires
            self.wf(),
        ensures
            match r {
                Some(i) => i < self.agents@.len() && self.agents@[i as int].spec_can_accept(
                    model_id@,
                ),
                None => forall|i: int|
                    0 <= i < self.agents@.len() ==> !(#[trigger] self.agents@[i]).spec_can_accept(
                        model_id@,
                    ),
            },
    {
        let n = self.agents.len();
        let mut i: usize = 0;
        while i < n
            invariant
                self.wf(),
                n == self.agents@.len(),
                i <= n,
                forall|j: int|
                    0 <= j < i ==> !(#[trigger] self.agents@[j]).spec_can_accept(model_id@),
            decreases n - i,
        {
            if self.agents[i].can_accept(model_id) {
                return Some(i);
            }
            i = i + 1;
        }
        None
    }

    /// Optimistically take one slot on the agent at `index`.
    pub fn reserve_slot_on(&mut self, index: usize) -> (r: bool)
        requires
            old(self).wf(),
            index < old(self).agents@.len(),
        ensures
            final(self).wf(),
            final(self).agents@.len() == old(self).agents@.len(),
            forall|j: int|
                0 <= j < old(self).agents@.len() && j != index ==> final(self).agents@[j] == old(
                    self,
                ).agents@[j],
            r ==> final(self).agents@[index as int].reserved == old(
                self,
            ).agents@[index as int].reserved + 1,
            r <==> spec_idle_slots(old(self).agents@[index as int].snapshot.slots@) > old(
                self,
            ).agents@[index as int].reserved,
            !r ==> final(self).agents@[index as int] == old(self).agents@[index as int],
    {
        let agent = &mut self.agents[index];
        agent.reserve_slot()
    }
}


/// The mathematical content of a [`SlotSnapshotEntry`].
pub struct SlotSnapshotEntryView {
    pub state: SlotState,
    pub model_id: Seq<char>,
    pub last_update_millis: u64,
}

impl View for SlotSnapshotEntry {
    type V = SlotSnapshotEntryView;

    open spec fn view(&self) -> SlotSnapshotEntryView {
        SlotSnapshotEntryView {
            state: self.state,
            model_id: self.model_id@,
            last_update_millis: self.last_update_millis,
        }
    }
}

impl View for SlotAggregatedStatusSnapshot {
    type V = Seq<SlotSnapshotEntryView>;

    open spec fn view(&self) -> Seq<SlotSnapshotEntryView> {
        Seq::new(self.slots@.len(), |i: int| self.slots@[i]@)
    }
}

impl View for UpdateAgentStatusParams {
    type V = Seq<SlotSnapshotEntryView>;

    open spec fn view(&self) -> Seq<SlotSnapshotEntryView> {
        self.slot_aggregated_status_snapshot@
    }
}

} // verus!

//! Batched reputation processing: draining the transaction log into
//! symmetric updates, and the periodic decay pass over every view.

use vstd::prelude::*;

verus! {

use crate::events::TransactionEvent;
use crate::events::TransactionLog;
use crate::events::spec_outcome_weight;
use crate::identity::AgentId;
use crate::knowledge::ReputationKnowledge;
use crate::knowledge::entries_after_update;
use crate::knowledge::entries_after_decay;
use crate::knowledge::spec_find_view;
use crate::knowledge::spec_view_or_prior;
use crate::reputation::ReputationView;
use crate::reputation::view_after_update;
use crate::reputation::spec_abs_i64;
use crate::reputation::EVIDENCE_CAP_MILLI;

/// The entry list of one agent's knowledge after one event is processed
/// for that agent: if the agent is a participant, its view of the other
/// participant receives the event's signed weight; both roles apply when
/// the event names the agent twice.
pub open spec fn entries_after_one_event(
    s: Seq<(AgentId, ReputationView)>,
    owner: AgentId,
    e: TransactionEvent,
) -> Seq<(AgentId, ReputationView)> {
    let w = spec_outcome_weight(e.outcome);
    let s1 = if e.agent1 == owner {
        entries_after_update(s, e.agent2, w, e.tick)
    } else {
        s
    };
    if e.agent2 == owner {
        entries_after_update(s1, e.agent1, w, e.tick)
    } else {
        s1
    }
}

/// The entry list of one agent's knowledge after a whole event batch is
/// processed in queue order.
pub open spec fn entries_after_events(
    s: Seq<(AgentId, ReputationView)>,
    owner: AgentId,
    events: Seq<TransactionEvent>,
) -> Seq<(AgentId, ReputationView)>
    decreases events.len(),
{
    if events.len() == 0 {
        s
    } else {
        entries_after_events(entries_after_one_event(s, owner, events[0]), owner, events.skip(1))
    }
}

/// Processing a batch and then one more event is processing the extended
/// batch.
proof fn lemma_entries_after_events_snoc(
    s: Seq<(AgentId, ReputationView)>,
    owner: AgentId,
    events: Seq<TransactionEvent>,
    e: TransactionEvent,
)
    ensures
        entries_after_events(s, owner, events.push(e)) == entries_after_one_event(
            entries_after_events(s, owner, events),
            owner,
            e,
        ),
    decreases events.len(),
{
    let extended = events.push(e);
    if events.len() == 0 {
        assert(extended[0] == e);
        assert(extended.skip(1) =~= Seq::<TransactionEvent>::empty());
        assert(entries_after_events(s, owner, extended) == entries_after_events(
            entries_after_one_event(s, owner, e),
            owner,
            extended.skip(1),
        ));
        assert(entries_after_events(s, owner, events) == s);
    } else {
        assert(extended[0] == events[0]);
        assert(extended.skip(1) =~= events.skip(1).push(e));
        lemma_entries_after_events_snoc(
            entries_after_one_event(s, owner, events[0]),
            owner,
            events.skip(1),
            e,
        );
        assert(entries_after_events(s, owner, extended) == entries_after_events(
            entries_after_one_event(s, owner, events[0]),
            owner,
            extended.skip(1),
        ));
        assert(entries_after_events(s, owner, events) == entries_after_events(
            entries_after_one_event(s, owner, events[0]),
            owner,
            events.skip(1),
        ));
    }
}

/// Processing one event affects the two participants symmetrically: the
/// first agent's view of the second and the second agent's view of the
/// first both become `view_after_update` of their prior view, with the
/// same signed weight and tick.
pub proof fn lemma_event_symmetry(
    s1: Seq<(AgentId, ReputationView)>,
    s2: Seq<(AgentId, ReputationView)>,
    e: TransactionEvent,
)
    requires
        e.agent1 != e.agent2,
    ensures
        spec_find_view(entries_after_one_event(s1, e.agent1, e), e.agent2)
            == Some(
            view_after_update(
                spec_view_or_prior(s1, e.agent2),
                spec_outcome_weight(e.outcome),
                e.tick,
            ),
        ),
        spec_find_view(entries_after_one_event(s2, e.agent2, e), e.agent1)
            == Some(
            view_after_update(
                spec_view_or_prior(s2, e.agent1),
                spec_outcome_weight(e.outcome),
                e.tick,
            ),
        ),
{
    let w = spec_outcome_weight(e.outcome);
    crate::knowledge::lemma_find_after_update_same(s1, e.agent2, w, e.tick);
    crate::knowledge::lemma_find_after_update_same(s2, e.agent1, w, e.tick);
}

/// With saturation out of the way, one event leaves identical alpha and
/// beta deltas in the first agent's view of the second and in the second
/// agent's view of the first, and stamps both with the event's tick.
pub proof fn lemma_event_symmetry_deltas(
    s1: Seq<(AgentId, ReputationView)>,
    s2: Seq<(AgentId, ReputationView)>,
    e: TransactionEvent,
)
    requires
        e.agent1 != e.agent2,
        spec_view_or_prior(s1, e.agent2).alpha + spec_abs_i64(
            spec_outcome_weight(e.outcome),
        ) <= EVIDENCE_CAP_MILLI,
        spec_view_or_prior(s1, e.agent2).beta + spec_abs_i64(
            spec_outcome_weight(e.outcome),
        ) <= EVIDENCE_CAP_MILLI,
        spec_view_or_prior(s2, e.agent1).alpha + spec_abs_i64(
            spec_outcome_weight(e.outcome),
        ) <= EVIDENCE_CAP_MILLI,
        spec_view_or_prior(s2, e.agent1).beta + spec_abs_i64(
            spec_outcome_weight(e.outcome),
        ) <= EVIDENCE_CAP_MILLI,
    ensures
        ({
            let v1 = spec_view_or_prior(s1, e.agent2);
            let v2 = spec_view_or_prior(s2, e.agent1);
            let n1 = spec_view_or_prior(
                entries_after_one_event(s1, e.agent1, e),
                e.agent2,
            );
            let n2 = spec_view_or_prior(
                entries_after_one_event(s2, e.agent2, e),
                e.agent1,
            );
            &&& n1.alpha - v1.alpha == n2.alpha - v2.alpha
            &&& n1.beta - v1.beta == n2.beta - v2.beta
            &&& n1.last_interaction_tick == e.tick
            &&& n2.last_interaction_tick == e.tick
        }),
{
    lemma_event_symmetry(s1, s2, e);
}

/// Directory of the agents that carry reputation knowledge, keyed by
/// unique agent id.
#[derive(Debug)]
pub struct AgentReputations {
    agents: Vec<(AgentId, ReputationKnowledge)>,
}

impl AgentReputations {
    /// The registered (id, knowledge) pairs, in registration order.
    pub closed spec fn spec_agents(&self) -> Seq<(AgentId, ReputationKnowledge)> {
        self.agents@
    }

    /// Ids are unique and every knowledge store is well formed.
    pub open spec fn wf(&self) -> bool {
        &&& forall|i: int, j: int|
            0 <= i < j < self.spec_agents().len() ==> self.spec_agents()[i].0
                != self.spec_agents()[j].0
        &&& forall|i: int|
            0 <= i < self.spec_agents().len() ==> (#[trigger] self.spec_agents()[i].1).wf()
    }

    /// Whether `id` is registered.
    pub open spec fn spec_has_agent(&self, id: AgentId) -> bool {
        exists|i: int| 0 <= i < self.spec_agents().len() && (#[trigger] self.spec_agents()[i]).0 == id
    }

    /// Create an empty directory.
    pub fn new() -> (r: Self)
        ensures
            r.spec_agents() =~= Seq::<(AgentId, ReputationKnowledge)>::empty(),
            r.wf(),
    {
        AgentReputations { agents: Vec::new() }
    }

    /// How many agents are registered.
    pub fn agent_count(&self) -> (r: usize)
        ensures
            r == self.spec_agents().len(),
    {
        self.agents.len()
    }

    /// Register an agent with the given knowledge store; an already
    /// registered id leaves the directory unchanged.
    pub fn register_agent_with(&mut self, id: AgentId, knowledge: ReputationKnowledge)
        requires
            old(self).wf(),
            knowledge.wf(),
        ensures
            old(self).spec_has_agent(id) ==> final(self).spec_agents() == old(self).spec_agents(),
            !old(self).spec_has_agent(id) ==> final(self).spec_agents() == old(self).spec_agents().push((id, knowledge)),
            final(self).wf(),
    {
        let n = self.agents.len();
        let mut i: usize = 0;
        while i < n
            invariant
                old(self).wf(),
                self.agents@ == old(self).spec_agents(),
                n == self.agents.len(),
                i <= n,
                forall|j: int| 0 <= j < i ==> (#[trigger] self.agents@[j]).0 != id,
            decreases n - i,
        {
            if self.agents[i].0 == id {
                proof {
                    assert(self.spec_agents()[i as int].0 == id);
                }
                return ;
            }
            i = i + 1;
        }
        proof {
            assert(!self.spec_has_agent(id));
        }
        self.agents.push((id, knowledge));
    }

    /// Register an agent with a fresh knowledge store (neutral default
    /// trust); an already registered id leaves the directory unchanged.
    pub fn register_agent(&mut self, id: AgentId)
        requires
            old(self).wf(),
        ensures
            old(self).spec_has_agent(id) ==> final(self).spec_agents() == old(self).spec_agents(),
            !old(self).spec_has_agent(id) ==> {
                &&& final(self).spec_agents().len() == old(self).spec_agents().len() + 1
                &&& final(self).spec_agents().take(old(self).spec_agents().len() as int) =~= old(
                    self,
                ).spec_agents()
                &&& final(self).spec_agents().last().0 == id
                &&& final(self).spec_agents().last().1.spec_entries() =~= Seq::<
                    (AgentId, ReputationView),
                >::empty()
                &&& final(self).spec_agents().last().1.spec_trust_level() == 500_000u32
            },
            final(self).wf(),
    {
        let knowledge = ReputationKnowledge::new();
        self.register_agent_with(id, knowledge);
    }

    /// The knowledge store registered for `id`, if any.
    pub fn get_knowledge(&self, id: AgentId) -> (r: Option<&ReputationKnowledge>)
        ensures
            match r {
                Some(k) => exists|i: int|
                    0 <= i < self.spec_agents().len() && (#[trigger] self.spec_agents()[i]) == (
                        id,
                        *k,
                    ),
                None => !self.spec_has_agent(id),
            },
    {
        let n = self.agents.len();
        let mut i: usize = 0;
        while i < n
            invariant
                n == self.agents.len(),
                i <= n,
                forall|j: int| 0 <= j < i ==> (#[trigger] self.agents@[j]).0 != id,
            decreases n - i,
        {
            if self.agents[i].0 == id {
                proof {
                    assert(self.spec_agents()[i as int] == (id, self.agents@[i as int].1));
                }
                return Some(&self.agents[i].1);
            }
            i = i + 1;
        }
        None
    }

    /// Apply one event: each participant registered here has its view of
    /// the other participant updated by the event's signed weight; a
    /// participant without a registered store is skipped, the other side
    /// still updates.
    fn apply_event(&mut self, event: &TransactionEvent)
        requires
            old(self).wf(),
        ensures
            final(self).spec_agents().len() == old(self).spec_agents().len(),
            forall|k: int|
                0 <= k < old(self).spec_agents().len() ==> (#[trigger] final(self).spec_agents()[k]).0
                    == old(self).spec_agents()[k].0,
            forall|k: int|
                0 <= k < old(self).spec_agents().len() ==> (#[trigger] final(self).spec_agents()[k]).1.spec_trust_level() == old(self).spec_agents()[k].1.spec_trust_level(),
            forall|k: int|
                0 <= k < old(self).spec_agents().len() ==> (#[trigger] final(self).spec_agents()[k]).1.spec_entries() =~= entries_after_one_event(
                    old(self).spec_agents()[k].1.spec_entries(),
                    old(self).spec_agents()[k].0,
                    *event,
                ),
            final(self).wf(),
    {
        let weight = event.outcome.weight();
        let ghost mid = Seq::new(
            self.agents@.len(),
            |k: int|
                (
                    self.agents@[k].0,
                    if event.agent1 == self.agents@[k].0 {
                        entries_after_update(
                            self.agents@[k].1.spec_entries(),
                            event.agent2,
                            spec_outcome_weight(event.outcome),
                            event.tick,
                        )
                    } else {
                        self.agents@[k].1.spec_entries()
                    },
                ),
        );
        let n = self.agents.len();
        let mut i: usize = 0;
        while i < n
            invariant
                old(self).wf(),
                n == self.agents.len(),
                i <= n,
                weight == spec_outcome_weight(event.outcome),
                mid.len() == n,
                forall|k: int|
                    0 <= k < n ==> (#[trigger] mid[k]) == (
                        old(self).spec_agents()[k].0,
                        if event.agent1 == old(self).spec_agents()[k].0 {
                            entries_after_update(
                                old(self).spec_agents()[k].1.spec_entries(),
                                event.agent2,
                                spec_outcome_weight(event.outcome),
                                event.tick,
                            )
                        } else {
                            old(self).spec_agents()[k].1.spec_entries()
                        },
                    ),
                forall|k: int|
                    0 <= k < n ==> (#[trigger] self.agents@[k]).0 == old(self).spec_agents()[k].0,
                forall|k: int|
                    0 <= k < n ==> (#[trigger] self.agents@[k]).1.spec_trust_level() == old(self).spec_agents()[k].1.spec_trust_level(),
                forall|k: int|
                    0 <= k < n ==> (#[trigger] self.agents@[k]).1.wf(),
                forall|k: int|
                    0 <= k < i ==> (#[trigger] self.agents@[k]).1.spec_entries() == mid[k].1,
                forall|k: int|
                    i <= k < n ==> (#[trigger] self.agents@[k]).1.spec_entries() == old(self).spec_agents()[k].1.spec_entries(),
            decreases n - i,
        {
            if self.agents[i].0 == event.agent1 {
                let entry = &mut self.agents[i];
                entry.1.update_reputation(event.agent2, weight, event.tick);
            }
            i = i + 1;
        }
        let mut i: usize = 0;
        while i < n
            invariant
                old(self).wf(),
                n == self.agents.len(),
                i <= n,
                weight == spec_outcome_weight(event.outcome),
                mid.len() == n,
                forall|k: int|
                    0 <= k < n ==> (#[trigger] mid[k]) == (
                        old(self).spec_agents()[k].0,
                        if event.agent1 == old(self).spec_agents()[k].0 {
                            entries_after_update(
                                old(self).spec_agents()[k].1.spec_entries(),
                                event.agent2,
                                spec_outcome_weight(event.outcome),
                                event.tick,
                            )
                        } else {
                            old(self).spec_agents()[k].1.spec_entries()
                        },
                    ),
                forall|k: int|
                    0 <= k < n ==> (#[trigger] self.agents@[k]).0 == old(self).spec_agents()[k].0,
                forall|k: int|
                    0 <= k < n ==> (#[trigger] self.agents@[k]).1.spec_trust_level() == old(self).spec_agents()[k].1.spec_trust_level(),
                forall|k: int|
                    0 <= k < n ==> (#[trigger] self.agents@[k]).1.wf(),
                forall|k: int|
                    0 <= k < i ==> (#[trigger] self.agents@[k]).1.spec_entries()
                        == entries_after_one_event(
                        old(self).spec_agents()[k].1.spec_entries(),
                        old(self).spec_agents()[k].0,
                        *event,
                    ),
                forall|k: int|
                    i <= k < n ==> (#[trigger] self.agents@[k]).1.spec_entries() == mid[k].1,
            decreases n - i,
        {
            if self.agents[i].0 == event.agent2 {
                let entry = &mut self.agents[i];
                entry.1.update_reputation(event.agent1, weight, event.tick);
            }
            i = i + 1;
        }
    }
}

/// System that drains the transaction log and applies every event, in
/// queue order, symmetrically to both participants' reputation stores.
pub struct ReputationUpdateSystem;

impl ReputationUpdateSystem {
    /// Drain the whole log and apply each event in order.  Afterwards the
    /// log is empty and every registered agent's knowledge reflects the
    /// full batch; agents missing from the directory are skipped without
    /// affecting the other side.
    pub fn run(directory: &mut AgentReputations, log: &mut TransactionLog)
        requires
            old(directory).wf(),
        ensures
            final(log).spec_events() =~= Seq::<TransactionEvent>::empty(),
            final(directory).spec_agents().len() == old(directory).spec_agents().len(),
            forall|k: int|
                0 <= k < old(directory).spec_agents().len() ==> (#[trigger] final(directory).spec_agents()[k]).0 == old(directory).spec_agents()[k].0,
            forall|k: int|
                0 <= k < old(directory).spec_agents().len() ==> (#[trigger] final(directory).spec_agents()[k]).1.spec_trust_level() == old(directory).spec_agents()[k].1.spec_trust_level(),
            forall|k: int|
                0 <= k < old(directory).spec_agents().len() ==> (#[trigger] final(directory).spec_agents()[k]).1.spec_entries() =~= entries_after_events(
                    old(directory).spec_agents()[k].1.spec_entries(),
                    old(directory).spec_agents()[k].0,
                    old(log).spec_events(),
                ),
            final(directory).wf(),
    {
        let events = log.drain();
        let ghost all = events@;
        let n = events.len();
        let mut e: usize = 0;
        while e < n
            invariant
                n == events@.len(),
                e <= n,
                all == events@,
                all == old(log).spec_events(),
                directory.spec_agents().len() == old(directory).spec_agents().len(),
                forall|k: int|
                    0 <= k < old(directory).spec_agents().len() ==> (#[trigger] directory
                        .spec_agents()[k]).0 == old(directory).spec_agents()[k].0,
                forall|k: int|
                    0 <= k < old(directory).spec_agents().len() ==> (#[trigger] directory
                        .spec_agents()[k]).1.spec_trust_level() == old(directory).spec_agents()[k].1.spec_trust_level(),
                forall|k: int|
                    0 <= k < old(directory).spec_agents().len() ==> (#[trigger] directory
                        .spec_agents()[k]).1.spec_entries() == entries_after_events(
                        old(directory).spec_agents()[k].1.spec_entries(),
                        old(directory).spec_agents()[k].0,
                        all.take(e as int),
                    ),
                directory.wf(),
            decreases n - e,
        {
            directory.apply_event(&events[e]);
            proof {
                assert(all.take(e + 1) =~= all.take(e as int).push(all[e as int]));
                assert forall|k: int|
                    0 <= k < old(directory).spec_agents().len() implies (#[trigger] directory
                        .spec_agents()[k]).1.spec_entries() == entries_after_events(
                    old(directory).spec_agents()[k].1.spec_entries(),
                    old(directory).spec_agents()[k].0,
                    all.take(e + 1),
                ) by {
                    lemma_entries_after_events_snoc(
                        old(directory).spec_agents()[k].1.spec_entries(),
                        old(directory).spec_agents()[k].0,
                        all.take(e as int),
                        all[e as int],
                    );
                }
            }
            e = e + 1;
        }
        proof {
            assert(all.take(n as int) =~= all);
        }
    }
}

/// Configuration for reputation decay.
#[derive(Debug, Clone, Copy, PartialEq, Eq, Structural)]
pub struct ReputationDecayConfig {
    /// Rate of decay per tick, in ppm (100 ppm is 0.0001 per tick).
    pub decay_rate_ppm: u32,
}

impl Default for ReputationDecayConfig {
    /// The default decay rate: 100 ppm (0.0001) per tick.
    fn default() -> (r: Self)
        ensures
            r.decay_rate_ppm == 100u32,
    {
        ReputationDecayConfig { decay_rate_ppm: 100 }
    }
}

/// Current simulation tick.
#[derive(Debug, Clone, Copy, PartialEq, Eq, Structural, Default)]
pub struct CurrentTick(pub u64);

/// System that periodically decays and rebalances every reputation view of
/// every registered agent.
pub struct ReputationDecaySystem;

impl ReputationDecaySystem {
    /// Rebalance every view of every registered agent as
    /// `ReputationView::rebalance` does, bounding accumulated evidence
    /// while preserving each decayed score.
    pub fn run(directory: &mut AgentReputations, config: ReputationDecayConfig, current_tick: CurrentTick)
        requires
            old(directory).wf(),
            config.decay_rate_ppm <= 1_000_000,
        ensures
            final(directory).spec_agents().len() == old(directory).spec_agents().len(),
            forall|k: int|
                0 <= k < old(directory).spec_agents().len() ==> (#[trigger] final(directory).spec_agents()[k]).0 == old(directory).spec_agents()[k].0,
            forall|k: int|
                0 <= k < old(directory).spec_agents().len() ==> (#[trigger] final(directory).spec_agents()[k]).1.spec_trust_level() == old(directory).spec_agents()[k].1.spec_trust_level(),
            forall|k: int|
                0 <= k < old(directory).spec_agents().len() ==> (#[trigger] final(directory).spec_agents()[k]).1.spec_entries() =~= entries_after_decay(
                    old(directory).spec_agents()[k].1.spec_entries(),
                    current_tick.0,
                    config.decay_rate_ppm as int,
                ),
            final(directory).wf(),
    {
        let n = directory.agents.len();
        let mut i: usize = 0;
        while i < n
            invariant
                old(directory).wf(),
                config.decay_rate_ppm <= 1_000_000,
                n == directory.agents.len(),
                i <= n,
                forall|k: int|
                    0 <= k < n ==> (#[trigger] directory.agents@[k]).0 == old(directory).spec_agents()[k].0,
                forall|k: int|
                    0 <= k < n ==> (#[trigger] directory.agents@[k]).1.spec_trust_level() == old(directory).spec_agents()[k].1.spec_trust_level(),
                forall|k: int|
                    0 <= k < n ==> (#[trigger] directory.agents@[k]).1.wf(),
                forall|k: int|
                    0 <= k < i ==> (#[trigger] directory.agents@[k]).1.spec_entries()
                        =~= entries_after_decay(
                        old(directory).spec_agents()[k].1.spec_entries(),
                        current_tick.0,
                        config.decay_rate_ppm as int,
                    ),
                forall|k: int|
                    i <= k < n ==> (#[trigger] directory.agents@[k]).1.spec_entries() == old(directory).spec_agents()[k].1.spec_entries(),
            decreases n - i,
        {
            let entry = &mut directory.agents[i];
            entry.1.decay_all(current_tick.0, config.decay_rate_ppm);
            i = i + 1;
        }
    }
}

} // verus!

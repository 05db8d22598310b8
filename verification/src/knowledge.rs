//! First-hand reputation knowledge: the views one agent holds of others,
//! keyed by agent id, plus a default trust level for strangers.
//!
//! The backing store is an association list with unique ids; insertion order
//! carries no meaning.  Scores are in ppm, like everywhere else.

use vstd::prelude::*;

verus! {

use crate::identity::AgentId;
use crate::reputation::ReputationView;
use crate::reputation::view_after_update;
use crate::reputation::view_after_decay;
use crate::reputation::score_ppm_of;
use crate::reputation::spec_decayed_score_ppm;
use crate::reputation::spec_elapsed;

/// The view every store starts a relationship with: the uniform prior.
pub open spec fn spec_fresh_view() -> ReputationView {
    ReputationView { alpha: 1000u64, beta: 1000u64, last_interaction_tick: 0u64, interaction_count: 0u32 }
}

/// The first view recorded for `id`, if any.
pub open spec fn spec_find_view(s: Seq<(AgentId, ReputationView)>, id: AgentId) -> Option<
    ReputationView,
>
    decreases s.len(),
{
    if s.len() == 0 {
        None
    } else if s[0].0 == id {
        Some(s[0].1)
    } else {
        spec_find_view(s.skip(1), id)
    }
}

/// No id occurs twice.
pub open spec fn unique_ids(s: Seq<(AgentId, ReputationView)>) -> bool {
    forall|i: int, j: int| 0 <= i < j < s.len() ==> s[i].0 != s[j].0
}

/// Every recorded view is well formed.
pub open spec fn all_views_wf(s: Seq<(AgentId, ReputationView)>) -> bool {
    forall|i: int| 0 <= i < s.len() ==> (#[trigger] s[i].1).wf()
}

/// The entry list after recording one interaction with `agent`: an existing
/// entry is updated in place, a missing one is created from the uniform
/// prior and then updated.
pub open spec fn entries_after_update(
    s: Seq<(AgentId, ReputationView)>,
    agent: AgentId,
    weight: i64,
    tick: u64,
) -> Seq<(AgentId, ReputationView)>
    decreases s.len(),
{
    if s.len() == 0 {
        seq![(agent, view_after_update(spec_fresh_view(), weight, tick))]
    } else if s[0].0 == agent {
        seq![(agent, view_after_update(s[0].1, weight, tick))] + s.skip(1)
    } else {
        seq![s[0]] + entries_after_update(s.skip(1), agent, weight, tick)
    }
}

/// If `id` first occurs at index `i`, the find returns that entry's view.
proof fn lemma_find_at_index(s: Seq<(AgentId, ReputationView)>, id: AgentId, i: int)
    requires
        0 <= i < s.len(),
        s[i].0 == id,
        forall|j: int| 0 <= j < i ==> s[j].0 != id,
    ensures
        spec_find_view(s, id) == Some(s[i].1),
    decreases i,
{
    if i > 0 {
        lemma_find_at_index(s.skip(1), id, i - 1);
    }
}

/// If no entry carries `id`, the find returns nothing.
proof fn lemma_find_not_present(s: Seq<(AgentId, ReputationView)>, id: AgentId)
    requires
        forall|j: int| 0 <= j < s.len() ==> s[j].0 != id,
    ensures
        spec_find_view(s, id) == None::<ReputationView>,
    decreases s.len(),
{
    if s.len() > 0 {
        lemma_find_not_present(s.skip(1), id);
    }
}

/// Updating the entry at the first index carrying `agent` realises the
/// update on the entry list.
proof fn lemma_entries_after_found(
    s: Seq<(AgentId, ReputationView)>,
    agent: AgentId,
    weight: i64,
    tick: u64,
    i: int,
)
    requires
        0 <= i < s.len(),
        s[i].0 == agent,
        forall|j: int| 0 <= j < i ==> s[j].0 != agent,
    ensures
        entries_after_update(s, agent, weight, tick) =~= s.update(
            i,
            (agent, view_after_update(s[i].1, weight, tick)),
        ),
    decreases i,
{
    if i == 0 {
        assert(seq![(agent, view_after_update(s[0].1, weight, tick))] + s.skip(1) =~= s.update(
            0,
            (agent, view_after_update(s[0].1, weight, tick)),
        ));
    } else {
        lemma_entries_after_found(s.skip(1), agent, weight, tick, i - 1);
        assert(seq![s[0]] + s.skip(1).update(
            i - 1,
            (agent, view_after_update(s[i].1, weight, tick)),
        ) =~= s.update(i, (agent, view_after_update(s[i].1, weight, tick))));
    }
}

/// Pushing a freshly updated prior realises the update on an entry list
/// that does not know `agent` yet.
proof fn lemma_entries_after_missing(
    s: Seq<(AgentId, ReputationView)>,
    agent: AgentId,
    weight: i64,
    tick: u64,
)
    requires
        forall|j: int| 0 <= j < s.len() ==> s[j].0 != agent,
    ensures
        entries_after_update(s, agent, weight, tick) =~= s.push(
            (agent, view_after_update(spec_fresh_view(), weight, tick)),
        ),
    decreases s.len(),
{
    if s.len() == 0 {
        assert(entries_after_update(s, agent, weight, tick) =~= s.push(
            (agent, view_after_update(spec_fresh_view(), weight, tick)),
        ));
    } else {
        lemma_entries_after_missing(s.skip(1), agent, weight, tick);
        assert(seq![s[0]] + s.skip(1).push(
            (agent, view_after_update(spec_fresh_view(), weight, tick)),
        ) =~= s.push((agent, view_after_update(spec_fresh_view(), weight, tick))));
    }
}

/// First-hand reputation observations of other agents, with a default trust
/// level for agents never interacted with.
#[derive(Debug)]
pub struct ReputationKnowledge {
    entries: Vec<(AgentId, ReputationView)>,
    trust_level_ppm: u32,
}

impl ReputationKnowledge {
    /// The recorded (id, view) pairs, in insertion order.
    pub closed spec fn spec_entries(&self) -> Seq<(AgentId, ReputationView)> {
        self.entries@
    }

    /// The default trust level in ppm.
    pub closed spec fn spec_trust_level(&self) -> u32 {
        self.trust_level_ppm
    }

    /// Ids are unique, every view is well formed, and the default trust
    /// level is a valid score.
    pub open spec fn wf(&self) -> bool {
        &&& unique_ids(self.spec_entries())
        &&& all_views_wf(self.spec_entries())
        &&& self.spec_trust_level() <= 1_000_000
    }

    /// The score of `agent` in ppm: the recorded view's score, or the
    /// default trust level for a stranger.
    pub open spec fn spec_score_of(&self, agent: AgentId) -> int {
        match spec_find_view(self.spec_entries(), agent) {
            Some(v) => score_ppm_of(v.alpha as int, v.beta as int),
            None => self.spec_trust_level() as int,
        }
    }

    /// Create a new reputation knowledge with the neutral default trust
    /// level (0.5).
    pub fn new() -> (r: Self)
        ensures
            r.spec_entries() =~= Seq::<(AgentId, ReputationView)>::empty(),
            r.spec_trust_level() == 500_000u32,
            r.wf(),
    {
        ReputationKnowledge { entries: Vec::new(), trust_level_ppm: 500_000 }
    }

    /// Create a reputation knowledge with a custom default trust level in
    /// ppm, clamped to at most one whole unit.
    pub fn with_trust_level(trust_level_ppm: u32) -> (r: Self)
        ensures
            r.spec_entries() =~= Seq::<(AgentId, ReputationView)>::empty(),
            r.spec_trust_level() == if trust_level_ppm <= 1_000_000 {
                trust_level_ppm
            } else {
                1_000_000u32
            },
            r.wf(),
    {
        let clamped = if trust_level_ppm > 1_000_000 {
            1_000_000
        } else {
            trust_level_ppm
        };
        ReputationKnowledge { entries: Vec::new(), trust_level_ppm: clamped }
    }

    /// The default trust level in ppm.
    pub fn trust_level(&self) -> (r: u32)
        ensures
            r == self.spec_trust_level(),
    {
        self.trust_level_ppm
    }

    /// How many agents have a recorded view.
    pub fn known_count(&self) -> (r: usize)
        ensures
            r == self.spec_entries().len(),
    {
        self.entries.len()
    }

    /// The recorded view of `agent`, if any.
    pub fn get_view(&self, agent: AgentId) -> (r: Option<ReputationView>)
        ensures
            r == spec_find_view(self.spec_entries(), agent),
    {
        let n = self.entries.len();
        let mut i: usize = 0;
        while i < n
            invariant
                n == self.entries.len(),
                i <= n,
                forall|j: int| 0 <= j < i ==> self.entries@[j].0 != agent,
            decreases n - i,
        {
            if self.entries[i].0 == agent {
                proof {
                    lemma_find_at_index(self.entries@, agent, i as int);
                }
                return Some(self.entries[i].1);
            }
            i = i + 1;
        }
        proof {
            lemma_find_not_present(self.entries@, agent);
        }
        None
    }

    /// The reputation score of `agent` in ppm: a recorded view's score, or
    /// the default trust level for a stranger.
    pub fn get_score(&self, agent: AgentId) -> (r: u32)
        requires
            self.wf(),
        ensures
            r as int == self.spec_score_of(agent),
            r <= 1_000_000,
    {
        let found = self.get_view(agent);
        match found {
            Some(v) => {
                proof {
                    lemma_find_some_is_entry(self.spec_entries(), agent);
                }
                v.score_ppm()
            },
            None => self.trust_level_ppm,
        }
    }

    /// The reputation score of `agent` with temporal decay applied, in ppm;
    /// a stranger's score is the default trust level, undecayed.
    pub fn get_score_with_decay(&self, agent: AgentId, current_tick: u64, decay_rate_ppm: u32) -> (r:
        u32)
        requires
            self.wf(),
            decay_rate_ppm <= 1_000_000,
        ensures
            r as int == match spec_find_view(self.spec_entries(), agent) {
                Some(v) => spec_decayed_score_ppm(
                    v.alpha as int,
                    v.beta as int,
                    decay_rate_ppm as int,
                    spec_elapsed(v.last_interaction_tick, current_tick),
                ),
                None => self.spec_trust_level() as int,
            },
            r <= 1_000_000,
    {
        let found = self.get_view(agent);
        match found {
            Some(v) => {
                proof {
                    lemma_find_some_is_entry(self.spec_entries(), agent);
                }
                v.score_with_decay(current_tick, decay_rate_ppm)
            },
            None => self.trust_level_ppm,
        }
    }

    /// Record one interaction outcome with `agent`: a fresh view with the
    /// uniform prior is created on first contact, then updated as
    /// `ReputationView::update` does.
    pub fn update_reputation(&mut self, agent: AgentId, outcome_weight_milli: i64, current_tick: u64)
        requires
            old(self).wf(),
        ensures
            final(self).spec_entries() =~= entries_after_update(
                old(self).spec_entries(),
                agent,
                outcome_weight_milli,
                current_tick,
            ),
            final(self).spec_trust_level() == old(self).spec_trust_level(),
            final(self).wf(),
    {
        let ghost s0 = self.entries@;
        let n = self.entries.len();
        let mut i: usize = 0;
        while i < n
            invariant
                n == self.entries.len(),
                i <= n,
                self.entries@ == s0,
                self.trust_level_ppm == old(self).spec_trust_level(),
                old(self).wf(),
                s0 == old(self).spec_entries(),
                forall|j: int| 0 <= j < i ==> s0[j].0 != agent,
            decreases n - i,
        {
            if self.entries[i].0 == agent {
                let mut v = self.entries[i].1;
                v.update(outcome_weight_milli, current_tick);
                self.entries[i] = (agent, v);
                proof {
                    lemma_entries_after_found(
                        s0,
                        agent,
                        outcome_weight_milli,
                        current_tick,
                        i as int,
                    );
                    assert(forall|k: int|
                        0 <= k < self.entries@.len() && k != i ==> self.entries@[k]
                            == s0[k]);
                }
                return ;
            }
            i = i + 1;
        }
        let mut v = ReputationView::new();
        v.update(outcome_weight_milli, current_tick);
        self.entries.push((agent, v));
        proof {
            lemma_entries_after_missing(s0, agent, outcome_weight_milli, current_tick);
            assert(forall|k: int| 0 <= k < s0.len() ==> self.entries@[k] == s0[k]);
        }
    }

    /// The up to `max_count` most trusted known agents, each with its score
    /// in ppm.
    ///
    /// Ordering is by exact rational score descending, with ties broken by
    /// ascending agent id, so the listing is deterministic no matter how
    /// the entries are stored.  Every known agent left out scores no better
    /// than any agent kept.
    pub fn get_most_trusted(&self, max_count: usize) -> (r: Vec<(AgentId, u32)>)
        requires
            self.wf(),
        ensures
            r@.len() == if max_count as int <= self.spec_entries().len() {
                max_count as int
            } else {
                self.spec_entries().len() as int
            },
            forall|k: int|
                0 <= k < r@.len() ==> spec_find_view(self.spec_entries(), (#[trigger] r@[k]).0)
                    == Some(spec_view_or_prior(self.spec_entries(), r@[k].0)),
            forall|k: int|
                0 <= k < r@.len() ==> (#[trigger] r@[k]).1 as int == score_ppm_of(
                    spec_view_or_prior(self.spec_entries(), r@[k].0).alpha as int,
                    spec_view_or_prior(self.spec_entries(), r@[k].0).beta as int,
                ),
            forall|k1: int, k2: int|
                0 <= k1 < k2 < r@.len() ==> (#[trigger] r@[k1]).0 != (#[trigger] r@[k2]).0,
            forall|k1: int, k2: int|
                0 <= k1 < k2 < r@.len() ==> trust_key_le(
                    ((#[trigger] r@[k1]).0, spec_view_or_prior(self.spec_entries(), r@[k1].0)),
                    ((#[trigger] r@[k2]).0, spec_view_or_prior(self.spec_entries(), r@[k2].0)),
                ),
            forall|id: AgentId, k: int|
                #![trigger spec_find_view(self.spec_entries(), id), r@[k]]
                spec_find_view(self.spec_entries(), id) is Some && (forall|m: int|
                    0 <= m < r@.len() ==> (#[trigger] r@[m]).0 != id) && 0 <= k < r@.len()
                    ==> trust_key_le(
                    (r@[k].0, spec_view_or_prior(self.spec_entries(), r@[k].0)),
                    (id, spec_view_or_prior(self.spec_entries(), id)),
                ),
    {
        let ghost entries0 = self.spec_entries();
        let n = self.entries.len();
        let mut work: Vec<(AgentId, ReputationView)> = Vec::new();
        let mut i: usize = 0;
        while i < n
            invariant
                n == self.entries.len(),
                i <= n,
                work@ == self.entries@.subrange(0, i as int),
            decreases n - i,
        {
            work.push(self.entries[i]);
            proof {
                assert(work@ =~= self.entries@.subrange(0, i + 1));
            }
            i = i + 1;
        }
        proof {
            assert(work@ =~= entries0);
        }
        let mut i: usize = 1;
        while i < n
            invariant
                self.wf(),
                entries0 == self.spec_entries(),
                work@.len() == n,
                work@.to_multiset() == entries0.to_multiset(),
                all_views_wf(work@),
                forall|a: int, b: int| 0 <= a < b < i ==> trust_key_le(work@[a], work@[b]),
            decreases n - i,
        {
            let mut j: usize = i;
            while j > 0
                invariant
                    self.wf(),
                    entries0 == self.spec_entries(),
                    j <= i < n,
                    work@.len() == n,
                    work@.to_multiset() == entries0.to_multiset(),
                    all_views_wf(work@),
                    forall|a: int, b: int|
                        0 <= a < b <= i && a != j && b != j ==> trust_key_le(work@[a], work@[b]),
                    forall|b: int| j < b <= i ==> trust_key_le(work@[j as int], work@[b]),
                ensures
                    j <= i < n,
                    work@.len() == n,
                    work@.to_multiset() == entries0.to_multiset(),
                    all_views_wf(work@),
                    forall|a: int, b: int|
                        0 <= a < b <= i && a != j && b != j ==> trust_key_le(work@[a], work@[b]),
                    forall|b: int| j < b <= i ==> trust_key_le(work@[j as int], work@[b]),
                    j == 0 || trust_key_le(work@[j - 1], work@[j as int]),
                decreases j,
            {
                let prev = work[j - 1];
                let cur = work[j];
                if trust_key_le_exec(&prev, &cur) {
                    break ;
                }
                proof {
                    lemma_trust_key_le_total(prev, cur);
                    lemma_swap_preserves_multiset(work@, j - 1, j as int);
                }
                work[j - 1] = cur;
                work[j] = prev;
                j = j - 1;
            }
            proof {
                assert forall|a: int, b: int| 0 <= a < b <= i + 1 - 1 implies trust_key_le(
                    work@[a],
                    work@[b],
                ) by {
                    if a == j {
                        assert(trust_key_le(work@[a], work@[b]));
                    } else if b == j {
                        if a < j - 1 {
                            assert(trust_key_le(work@[a], work@[j - 1]));
                        }
                        lemma_trust_key_le_trans(work@[a], work@[j - 1], work@[b]);
                    } else {
                        assert(trust_key_le(work@[a], work@[b]));
                    }
                }
            }
            i = i + 1;
        }
        proof {
            if n > 0 {
                assert(forall|a: int, b: int|
                    0 <= a < b < n ==> trust_key_le(work@[a], work@[b]));
            }
        }
        let ghost full = work@;
        work.truncate(max_count);
        let kept = work.len();
        let mut result: Vec<(AgentId, u32)> = Vec::new();
        let mut k: usize = 0;
        while k < kept
            invariant
                self.wf(),
                kept <= full.len(),
                work@ == full.subrange(0, kept as int),
                all_views_wf(full),
                k <= kept,
                result@.len() == k,
                forall|m: int|
                    0 <= m < k ==> (#[trigger] result@[m]).0 == full[m].0 && result@[m].1 as int
                        == score_ppm_of(full[m].1.alpha as int, full[m].1.beta as int),
            decreases kept - k,
        {
            let entry = work[k];
            let score = entry.1.score_ppm();
            result.push((entry.0, score));
            k = k + 1;
        }
        proof {
            broadcast use vstd::seq_lib::to_multiset_contains;

            assert(unique_ids(entries0));
            assert forall|m: int| 0 <= m < kept implies spec_find_view(entries0, full[m].0)
                == Some(full[m].1) by {
                assert(full.to_multiset().count(full[m]) > 0);
                assert(entries0.contains(full[m]));
                lemma_find_by_contains(entries0, full[m].0, full[m].1);
            }
            assert forall|k1: int, k2: int| 0 <= k1 < k2 < kept implies full[k1].0 != full[k2].0 by {
                if full[k1].0 == full[k2].0 {
                    assert(spec_find_view(entries0, full[k1].0) == Some(full[k1].1));
                    assert(spec_find_view(entries0, full[k2].0) == Some(full[k2].1));
                    assert(full[k1].1 == full[k2].1);
                    assert(full[k1] == full[k2]);
                    assert(entries0.no_duplicates()) by {
                        assert(forall|p: int, q: int|
                            0 <= p < q < entries0.len() ==> entries0[p] != entries0[q]);
                    }
                    entries0.lemma_multiset_has_no_duplicates();
                    full.lemma_multiset_has_no_duplicates_conv();
                    assert(full[k1] != full[k2]);
                }
            }
            assert forall|id: AgentId, k1: int|
                spec_find_view(entries0, id) is Some && (forall|m: int|
                    0 <= m < result@.len() ==> (#[trigger] result@[m]).0 != id) && 0 <= k1
                    < result@.len() implies trust_key_le(
                ((result@[k1]).0, spec_view_or_prior(entries0, result@[k1].0)),
                (id, spec_view_or_prior(entries0, id)),
            ) by {
                let v = spec_find_view(entries0, id).unwrap();
                lemma_find_some_index(entries0, id);
                assert(entries0.contains((id, v)));
                assert(full.to_multiset().count((id, v)) > 0);
                assert(full.contains((id, v)));
                let m = choose|m: int| 0 <= m < full.len() && full[m] == (id, v);
                assert(m >= kept) by {
                    if m < kept {
                        assert(result@[m].0 == id);
                    }
                }
                assert(trust_key_le(full[k1], full[m]));
                assert(spec_view_or_prior(entries0, result@[k1].0) == full[k1].1);
            }
        }
        result
    }

    /// Apply one decay-and-rebalance pass to every recorded view, as
    /// `ReputationView::rebalance` does.
    pub fn decay_all(&mut self, current_tick: u64, decay_rate_ppm: u32)
        requires
            old(self).wf(),
            decay_rate_ppm <= 1_000_000,
        ensures
            final(self).spec_entries() =~= entries_after_decay(
                old(self).spec_entries(),
                current_tick,
                decay_rate_ppm as int,
            ),
            final(self).spec_trust_level() == old(self).spec_trust_level(),
            final(self).wf(),
    {
        let ghost s0 = self.entries@;
        let n = self.entries.len();
        let mut m: usize = 0;
        while m < n
            invariant
                old(self).wf(),
                decay_rate_ppm <= 1_000_000,
                n == self.entries.len(),
                m <= n,
                s0 == old(self).spec_entries(),
                self.trust_level_ppm == old(self).spec_trust_level(),
                forall|k: int|
                    m <= k < n ==> self.entries@[k] == s0[k],
                forall|k: int|
                    0 <= k < m ==> self.entries@[k] == (
                        s0[k].0,
                        view_after_decay(s0[k].1, current_tick, decay_rate_ppm as int),
                    ),
                forall|k: int| 0 <= k < n ==> (#[trigger] self.entries@[k].1).wf(),
            decreases n - m,
        {
            let id = self.entries[m].0;
            let mut v = self.entries[m].1;
            v.rebalance(current_tick, decay_rate_ppm);
            self.entries[m] = (id, v);
            m = m + 1;
        }
        proof {
            assert(self.entries@ =~= entries_after_decay(
                s0,
                current_tick,
                decay_rate_ppm as int,
            ));
        }
    }

    /// Whether `agent`'s score reaches the given threshold (inclusive).
    pub fn is_trusted(&self, agent: AgentId, threshold_ppm: u32) -> (r: bool)
        requires
            self.wf(),
        ensures
            r == (self.spec_score_of(agent) >= threshold_ppm as int),
    {
        let score = self.get_score(agent);
        score >= threshold_ppm
    }
}

/// The entry list after one decay-and-rebalance pass: every view is
/// rebalanced in place, ids and order untouched.
pub open spec fn entries_after_decay(
    s: Seq<(AgentId, ReputationView)>,
    current_tick: u64,
    rate: int,
) -> Seq<(AgentId, ReputationView)> {
    Seq::new(s.len(), |i: int| (s[i].0, view_after_decay(s[i].1, current_tick, rate)))
}

/// After recording an interaction with `agent`, the store's view of
/// `agent` is exactly the updated view (of the prior recorded view, or of
/// the uniform prior on first contact).
pub proof fn lemma_find_after_update_same(
    s: Seq<(AgentId, ReputationView)>,
    agent: AgentId,
    weight: i64,
    tick: u64,
)
    ensures
        spec_find_view(entries_after_update(s, agent, weight, tick), agent) == Some(
            view_after_update(spec_view_or_prior(s, agent), weight, tick),
        ),
    decreases s.len(),
{
    let after = entries_after_update(s, agent, weight, tick);
    if s.len() == 0 {
        assert(after[0] == (agent, view_after_update(spec_fresh_view(), weight, tick)));
    } else if s[0].0 == agent {
        assert(after[0] == (agent, view_after_update(s[0].1, weight, tick)));
    } else {
        lemma_find_after_update_same(s.skip(1), agent, weight, tick);
        let rest = entries_after_update(s.skip(1), agent, weight, tick);
        assert(after[0] == s[0]);
        assert(after.skip(1) =~= rest);
    }
}

/// Recording an interaction with `agent` leaves the store's view of every
/// other agent untouched.
pub proof fn lemma_find_after_update_other(
    s: Seq<(AgentId, ReputationView)>,
    agent: AgentId,
    weight: i64,
    tick: u64,
    other: AgentId,
)
    requires
        other != agent,
    ensures
        spec_find_view(entries_after_update(s, agent, weight, tick), other) == spec_find_view(
            s,
            other,
        ),
    decreases s.len(),
{
    let after = entries_after_update(s, agent, weight, tick);
    if s.len() == 0 {
        assert(after[0] == (agent, view_after_update(spec_fresh_view(), weight, tick)));
        assert(after.skip(1) =~= Seq::<(AgentId, ReputationView)>::empty());
        assert(spec_find_view(after, other) == spec_find_view(after.skip(1), other));
        assert(spec_find_view(after.skip(1), other) == None::<ReputationView>);
    } else if s[0].0 == agent {
        assert(after[0] == (agent, view_after_update(s[0].1, weight, tick)));
        assert(after.skip(1) =~= s.skip(1));
        assert(spec_find_view(after, other) == spec_find_view(after.skip(1), other));
        assert(spec_find_view(s, other) == spec_find_view(s.skip(1), other));
    } else {
        lemma_find_after_update_other(s.skip(1), agent, weight, tick, other);
        let rest = entries_after_update(s.skip(1), agent, weight, tick);
        assert(after[0] == s[0]);
        assert(after.skip(1) =~= rest);
        if s[0].0 == other {
            assert(spec_find_view(after, other) == Some(after[0].1));
            assert(spec_find_view(s, other) == Some(s[0].1));
        } else {
            assert(spec_find_view(after, other) == spec_find_view(after.skip(1), other));
            assert(spec_find_view(s, other) == spec_find_view(s.skip(1), other));
        }
    }
}

/// The view recorded for `id`, or the uniform prior for a stranger.
pub open spec fn spec_view_or_prior(s: Seq<(AgentId, ReputationView)>, id: AgentId) -> ReputationView {
    match spec_find_view(s, id) {
        Some(v) => v,
        None => spec_fresh_view(),
    }
}

/// Sort key for most-trusted listings: a strictly higher exact score sorts
/// first; equal exact scores fall back to ascending agent id, making the
/// order total and deterministic however the entries are stored.
pub open spec fn trust_key_le(e1: (AgentId, ReputationView), e2: (AgentId, ReputationView)) -> bool {
    let lhs = (e1.1.alpha as int) * (e2.1.alpha + e2.1.beta);
    let rhs = (e2.1.alpha as int) * (e1.1.alpha + e1.1.beta);
    lhs > rhs || (lhs == rhs && e1.0.0 <= e2.0.0)
}

/// Every pair sorts one way or the other.
pub proof fn lemma_trust_key_le_total(e1: (AgentId, ReputationView), e2: (AgentId, ReputationView))
    ensures
        trust_key_le(e1, e2) || trust_key_le(e2, e1),
{
}

/// Chained cross-multiplied fraction comparisons compose, strictly if
/// either link is strict.
proof fn lemma_frac_cross_trans(a1: int, d1: int, a2: int, d2: int, a3: int, d3: int)
    requires
        d1 >= 1,
        d2 >= 1,
        d3 >= 1,
        a1 * d2 >= a2 * d1,
        a2 * d3 >= a3 * d2,
    ensures
        a1 * d3 >= a3 * d1,
        (a1 * d2 > a2 * d1 || a2 * d3 > a3 * d2) ==> a1 * d3 > a3 * d1,
{
    assert((a1 * d2) * d3 >= (a2 * d1) * d3) by (nonlinear_arith)
        requires d3 >= 1 && a1 * d2 >= a2 * d1;
    assert((a2 * d3) * d1 >= (a3 * d2) * d1) by (nonlinear_arith)
        requires d1 >= 1 && a2 * d3 >= a3 * d2;
    assert((a1 * d2) * d3 == (a1 * d3) * d2 && (a2 * d1) * d3 == (a2 * d3) * d1 && (a3 * d2) * d1
        == (a3 * d1) * d2) by (nonlinear_arith);
    assert((a1 * d3) * d2 >= (a3 * d1) * d2);
    assert(a1 * d3 >= a3 * d1) by (nonlinear_arith)
        requires d2 >= 1 && (a1 * d3) * d2 >= (a3 * d1) * d2;
    if a1 * d2 > a2 * d1 {
        assert((a1 * d2) * d3 > (a2 * d1) * d3) by (nonlinear_arith)
            requires d3 >= 1 && a1 * d2 > a2 * d1;
        assert((a1 * d3) * d2 > (a3 * d1) * d2);
        assert(a1 * d3 > a3 * d1) by (nonlinear_arith)
            requires d2 >= 1 && (a1 * d3) * d2 > (a3 * d1) * d2;
    } else if a2 * d3 > a3 * d2 {
        assert((a2 * d3) * d1 > (a3 * d2) * d1) by (nonlinear_arith)
            requires d1 >= 1 && a2 * d3 > a3 * d2;
        assert((a1 * d3) * d2 > (a3 * d1) * d2);
        assert(a1 * d3 > a3 * d1) by (nonlinear_arith)
            requires d2 >= 1 && (a1 * d3) * d2 > (a3 * d1) * d2;
    }
}

/// The trust sort key is transitive over well-formed views.
pub proof fn lemma_trust_key_le_trans(
    e1: (AgentId, ReputationView),
    e2: (AgentId, ReputationView),
    e3: (AgentId, ReputationView),
)
    requires
        e1.1.wf(),
        e2.1.wf(),
        e3.1.wf(),
        trust_key_le(e1, e2),
        trust_key_le(e2, e3),
    ensures
        trust_key_le(e1, e3),
{
    let a1 = e1.1.alpha as int;
    let a2 = e2.1.alpha as int;
    let a3 = e3.1.alpha as int;
    let d1 = e1.1.alpha + e1.1.beta;
    let d2 = e2.1.alpha + e2.1.beta;
    let d3 = e3.1.alpha + e3.1.beta;
    lemma_frac_cross_trans(a1, d1, a2, d2, a3, d3);
}

/// Ascending-by-key order over a whole entry sequence.
pub open spec fn sorted_by_trust(s: Seq<(AgentId, ReputationView)>) -> bool {
    forall|i: int, j: int| 0 <= i < j < s.len() ==> trust_key_le(s[i], s[j])
}

/// Exec comparison realising `trust_key_le` by exact cross-multiplication;
/// the evidence cap keeps the products inside u128.
fn trust_key_le_exec(e1: &(AgentId, ReputationView), e2: &(AgentId, ReputationView)) -> (r: bool)
    requires
        e1.1.wf(),
        e2.1.wf(),
    ensures
        r == trust_key_le(*e1, *e2),
{
    let d1: u128 = e1.1.alpha as u128 + e1.1.beta as u128;
    let d2: u128 = e2.1.alpha as u128 + e2.1.beta as u128;
    proof {
        assert(e1.1.alpha as int * (e2.1.alpha + e2.1.beta) <= u128::MAX) by (nonlinear_arith)
            requires
                e1.1.alpha <= crate::reputation::EVIDENCE_CAP_MILLI,
                e2.1.alpha + e2.1.beta <= 2 * crate::reputation::EVIDENCE_CAP_MILLI,
        ;
        assert(e2.1.alpha as int * (e1.1.alpha + e1.1.beta) <= u128::MAX) by (nonlinear_arith)
            requires
                e2.1.alpha <= crate::reputation::EVIDENCE_CAP_MILLI,
                e1.1.alpha + e1.1.beta <= 2 * crate::reputation::EVIDENCE_CAP_MILLI,
        ;
    }
    let lhs: u128 = e1.1.alpha as u128 * d2;
    let rhs: u128 = e2.1.alpha as u128 * d1;
    if lhs > rhs {
        true
    } else if lhs == rhs {
        e1.0.0 <= e2.0.0
    } else {
        false
    }
}

/// Swapping two positions leaves the multiset of elements unchanged.
proof fn lemma_swap_preserves_multiset(s: Seq<(AgentId, ReputationView)>, i: int, j: int)
    requires
        0 <= i < s.len(),
        0 <= j < s.len(),
        i != j,
    ensures
        s.update(i, s[j]).update(j, s[i]).to_multiset() =~= s.to_multiset(),
{
    broadcast use vstd::seq_lib::to_multiset_update;
    broadcast use vstd::seq_lib::to_multiset_contains;
    broadcast use vstd::multiset::group_multiset_axioms;

    let ms = s.to_multiset();
    assert(s.contains(s[i]) && s.contains(s[j]));
    assert(ms.count(s[i]) > 0 && ms.count(s[j]) > 0);
    let s1 = s.update(i, s[j]);
    assert(s1.to_multiset() == ms.insert(s[j]).remove(s[i]));
    assert(s1[j] == s[j]);
    let s2 = s1.update(j, s[i]);
    assert(s2.to_multiset() == s1.to_multiset().insert(s[i]).remove(s[j]));
    assert forall|e: (AgentId, ReputationView)| true implies s2.to_multiset().count(e) == ms.count(
        e,
    ) by {
        assert(ms.insert(s[j]).count(s[i]) > 0);
        assert(s2.to_multiset().count(e) == ms.insert(s[j]).remove(s[i]).insert(s[i]).remove(
            s[j],
        ).count(e));
    }
    assert(s2.to_multiset() =~= ms);
}

/// A find that succeeds points at an actual entry.
proof fn lemma_find_some_index(s: Seq<(AgentId, ReputationView)>, id: AgentId)
    requires
        spec_find_view(s, id) is Some,
    ensures
        exists|i: int|
            0 <= i < s.len() && s[i] == (id, spec_find_view(s, id).unwrap()),
    decreases s.len(),
{
    if s.len() > 0 && s[0].0 != id {
        lemma_find_some_index(s.skip(1), id);
        let i = choose|i: int|
            0 <= i < s.skip(1).len() && s.skip(1)[i] == (id, spec_find_view(s.skip(1), id).unwrap());
        assert(s[i + 1] == (id, spec_find_view(s, id).unwrap()));
    }
}

/// In a store with unique ids, containing the pair means the find returns
/// exactly its view.
proof fn lemma_find_by_contains(s: Seq<(AgentId, ReputationView)>, id: AgentId, v: ReputationView)
    requires
        unique_ids(s),
        s.contains((id, v)),
    ensures
        spec_find_view(s, id) == Some(v),
{
    let idx = choose|idx: int| 0 <= idx < s.len() && s[idx] == (id, v);
    assert(forall|j: int| 0 <= j < idx ==> s[j].0 != id);
    lemma_find_at_index(s, id, idx);
}

/// A found view belongs to some entry, hence is well formed in a
/// well-formed store.
proof fn lemma_find_some_is_entry(s: Seq<(AgentId, ReputationView)>, id: AgentId)
    requires
        all_views_wf(s),
    ensures
        spec_find_view(s, id) matches Some(v) ==> v.wf(),
    decreases s.len(),
{
    if s.len() > 0 && s[0].0 != id {
        assert(all_views_wf(s.skip(1))) by {
            assert(forall|i: int|
                0 <= i < s.skip(1).len() ==> s.skip(1)[i] == s[i + 1]);
        }
        lemma_find_some_is_entry(s.skip(1), id);
    }
}

} // verus!

//! Reputation views and per-agent reputation knowledge.  Alpha, beta and
//! weights are in milli (1000 is one whole unit); scores in ppm (500_000
//! is the neutral 0.5).

use libreconomy::reputation::{decay_factor_ppm, NEUTRAL_SCORE_PPM, UNIT_PPM};
use libreconomy::{AgentId, ReputationKnowledge, ReputationView};

#[test]
fn test_reputation_view_creation() {
    let view = ReputationView::new();
    assert_eq!(view.alpha, 1_000);
    assert_eq!(view.beta, 1_000);
    assert_eq!(view.score_ppm(), NEUTRAL_SCORE_PPM);
    assert_eq!(view.interaction_count, 0);
}

#[test]
fn test_reputation_view_positive_update() {
    let mut view = ReputationView::new();
    view.update(1_000, 100);

    assert_eq!(view.alpha, 2_000);
    assert_eq!(view.beta, 1_000);
    assert!(view.score_ppm() > 500_000);
    assert_eq!(view.interaction_count, 1);
    assert_eq!(view.last_interaction_tick, 100);
}

#[test]
fn test_reputation_view_negative_update() {
    let mut view = ReputationView::new();
    view.update(-1_000, 100);

    assert_eq!(view.alpha, 1_000);
    assert_eq!(view.beta, 2_000);
    assert!(view.score_ppm() < 500_000);
    assert_eq!(view.interaction_count, 1);
}

#[test]
fn test_reputation_view_neutral_update() {
    let mut view = ReputationView::new();
    view.update(0, 42);
    assert_eq!(view.alpha, 1_000);
    assert_eq!(view.beta, 1_000);
    assert_eq!(view.last_interaction_tick, 42);
    assert_eq!(view.interaction_count, 1);
}

#[test]
fn test_reputation_view_score_bounds() {
    let mut view = ReputationView::new();

    for _ in 0..10 {
        view.update(1_000, 100);
    }
    assert!(view.score_ppm() <= 1_000_000);
    assert!(view.score_ppm() > 900_000);

    for _ in 0..20 {
        view.update(-1_000, 200);
    }
    assert!(view.score_ppm() <= 1_000_000);
    assert!(view.score_ppm() < 500_000);
}

#[test]
fn test_reputation_view_decay() {
    let mut view = ReputationView::new();
    view.update(10_000, 100);
    let score_fresh = view.score_ppm();

    let score_decayed = view.score_with_decay(1_100, 1_000);
    assert!(score_decayed < score_fresh);
    assert!(score_decayed > 500_000);
}

#[test]
fn score_with_decay_zero_elapsed_equals_score() {
    let mut view = ReputationView::new();
    view.update(7_000, 500);
    assert_eq!(view.score_with_decay(500, 1_000), view.score_ppm());
    // A current tick before the last interaction also leaves the score as is.
    assert_eq!(view.score_with_decay(250, 1_000), view.score_ppm());
}

#[test]
fn score_strictly_monotone_under_updates() {
    let mut view = ReputationView::with_prior(3_000, 2_000);
    let before = view.score_ppm();
    view.update(5_000, 10);
    let after_positive = view.score_ppm();
    assert!(after_positive > before);

    view.update(-9_000, 20);
    let after_negative = view.score_ppm();
    assert!(after_negative < after_positive);
}

#[test]
fn repeated_positive_updates_never_reach_full_trust() {
    let mut view = ReputationView::new();
    let mut last = view.score_ppm();
    for _ in 0..1000 {
        view.update(1_000_000, 5);
        let score = view.score_ppm();
        assert!(score >= last);
        assert!(score < 1_000_000);
        last = score;
    }
    assert!(last > 999_000);
}

#[test]
fn decayed_score_approaches_neutral_with_time() {
    let mut view = ReputationView::new();
    view.update(20_000, 0);
    let mut last = view.score_with_decay(0, 2_000);
    assert_eq!(last, view.score_ppm());
    for elapsed in [10u64, 100, 1_000, 5_000, 20_000] {
        let decayed = view.score_with_decay(elapsed, 2_000);
        assert!(decayed <= last);
        assert!(decayed >= 500_000);
        last = decayed;
    }
    // Far in the future the score is all but neutral again.
    assert!(last <= 500_001);
}

#[test]
fn decay_factor_shrinks_with_elapsed_time() {
    let f0 = decay_factor_ppm(100, 0);
    let f1 = decay_factor_ppm(100, 1_000);
    let f2 = decay_factor_ppm(100, 20_000);
    assert_eq!(f0 as u64, UNIT_PPM);
    assert!(f1 < f0);
    assert!(f2 < f1);
    assert!(f2 > 0);

    // Zero rate decays nothing.
    assert_eq!(decay_factor_ppm(0, 1_000_000), 1_000_000);
}

#[test]
fn test_reputation_knowledge_creation() {
    let rep = ReputationKnowledge::new();
    assert_eq!(rep.trust_level(), 500_000);
    assert_eq!(rep.known_count(), 0);
}

#[test]
fn test_reputation_knowledge_unknown_agent() {
    let rep = ReputationKnowledge::with_trust_level(700_000);
    let unknown_agent = AgentId(999);

    let score = rep.get_score(unknown_agent);
    assert_eq!(score, 700_000);
}

#[test]
fn test_reputation_knowledge_update() {
    let mut rep = ReputationKnowledge::new();
    let agent = AgentId(42);

    rep.update_reputation(agent, 1_000, 100);
    let score = rep.get_score(agent);
    assert!(score > 500_000);

    rep.update_reputation(agent, -2_000, 200);
    let new_score = rep.get_score(agent);
    assert!(new_score < score);
}

#[test]
fn test_reputation_knowledge_is_trusted() {
    let mut rep = ReputationKnowledge::new();
    let agent = AgentId(42);

    assert!(!rep.is_trusted(agent, 800_000));

    for _ in 0..5 {
        rep.update_reputation(agent, 1_000, 100);
    }

    assert!(rep.is_trusted(agent, 800_000));
}

#[test]
fn test_reputation_knowledge_most_trusted() {
    let mut rep = ReputationKnowledge::new();

    let agent1 = AgentId(1);
    let agent2 = AgentId(2);
    let agent3 = AgentId(3);

    for _ in 0..5 {
        rep.update_reputation(agent1, 1_000, 100);
    }

    rep.update_reputation(agent2, 1_000, 100);
    rep.update_reputation(agent2, -1_000, 200);

    for _ in 0..3 {
        rep.update_reputation(agent3, -1_000, 100);
    }

    let most_trusted = rep.get_most_trusted(2);
    assert_eq!(most_trusted.len(), 2);
    assert_eq!(most_trusted[0].0, agent1);
    assert!(most_trusted[0].1 > most_trusted[1].1);
}

#[test]
fn most_trusted_breaks_score_ties_by_ascending_id() {
    let mut rep = ReputationKnowledge::new();
    // Insert in an order that differs from the id order; all three end up
    // with the identical view, hence identical exact scores.
    rep.update_reputation(AgentId(30), 2_000, 10);
    rep.update_reputation(AgentId(10), 2_000, 10);
    rep.update_reputation(AgentId(20), 2_000, 10);

    let listing = rep.get_most_trusted(3);
    assert_eq!(listing.len(), 3);
    assert_eq!(listing[0].0, AgentId(10));
    assert_eq!(listing[1].0, AgentId(20));
    assert_eq!(listing[2].0, AgentId(30));
}

#[test]
fn most_trusted_prefers_exact_scores_over_rounded_ones() {
    let mut rep = ReputationKnowledge::new();
    // Two scores so close that they agree after rounding to ppm: the exact
    // rational comparison must still rank the larger one first.
    rep.update_reputation(AgentId(2), 1_000_000_000, 1);
    rep.update_reputation(AgentId(1), 999_999_999, 1);

    let listing = rep.get_most_trusted(2);
    assert_eq!(listing.len(), 2);
    assert_eq!(listing[0].0, AgentId(2));
}

#[test]
fn get_view_reports_recorded_views_only() {
    let mut rep = ReputationKnowledge::new();
    assert!(rep.get_view(AgentId(5)).is_none());
    rep.update_reputation(AgentId(5), 1_500, 9);
    let view = rep.get_view(AgentId(5)).expect("view should exist");
    assert_eq!(view.alpha, 2_500);
    assert_eq!(view.beta, 1_000);
    assert_eq!(view.last_interaction_tick, 9);
    assert!(rep.get_view(AgentId(6)).is_none());
}

#[test]
fn get_score_with_decay_for_known_and_unknown() {
    let mut rep = ReputationKnowledge::with_trust_level(600_000);
    rep.update_reputation(AgentId(1), 10_000, 0);
    let fresh = rep.get_score(AgentId(1));
    let decayed = rep.get_score_with_decay(AgentId(1), 5_000, 1_000);
    assert!(decayed < fresh);
    assert!(decayed >= 500_000);
    // Strangers keep the default trust level, undecayed.
    assert_eq!(rep.get_score_with_decay(AgentId(2), 5_000, 1_000), 600_000);
}

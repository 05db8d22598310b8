//! The batched reputation update system and the decay system, over the
//! agent directory and the transaction log.

use libreconomy::{
    AgentId, AgentReputations, CurrentTick, ReputationDecayConfig, ReputationDecaySystem,
    ReputationUpdateSystem, TransactionEvent, TransactionLog,
};

fn directory_with_two_agents() -> AgentReputations {
    let mut directory = AgentReputations::new();
    directory.register_agent(AgentId(1));
    directory.register_agent(AgentId(2));
    directory
}

#[test]
fn test_reputation_update_system_positive() {
    let mut directory = directory_with_two_agents();
    let mut log = TransactionLog::new();
    log.add(TransactionEvent::positive_interaction(AgentId(1), AgentId(2), 1_000, 100));

    ReputationUpdateSystem::run(&mut directory, &mut log);

    let rep1 = directory.get_knowledge(AgentId(1)).unwrap();
    let score1 = rep1.get_score(AgentId(2));
    assert!(score1 > 500_000, "Score should be above neutral: {}", score1);

    let rep2 = directory.get_knowledge(AgentId(2)).unwrap();
    let score2 = rep2.get_score(AgentId(1));
    assert!(score2 > 500_000, "Score should be above neutral: {}", score2);
}

#[test]
fn test_reputation_update_system_negative() {
    let mut directory = directory_with_two_agents();
    let mut log = TransactionLog::new();
    log.add(TransactionEvent::negative_interaction(AgentId(1), AgentId(2), 2_000, 100));

    ReputationUpdateSystem::run(&mut directory, &mut log);

    let rep1 = directory.get_knowledge(AgentId(1)).unwrap();
    let score1 = rep1.get_score(AgentId(2));
    assert!(score1 < 500_000, "Score should be below neutral: {}", score1);

    let rep2 = directory.get_knowledge(AgentId(2)).unwrap();
    let score2 = rep2.get_score(AgentId(1));
    assert!(score2 < 500_000, "Score should be below neutral: {}", score2);
}

#[test]
fn test_reputation_update_system_multiple_events() {
    let mut directory = directory_with_two_agents();
    let mut log = TransactionLog::new();
    log.add(TransactionEvent::positive_interaction(AgentId(1), AgentId(2), 1_000, 100));
    log.add(TransactionEvent::positive_interaction(AgentId(1), AgentId(2), 1_000, 200));
    log.add(TransactionEvent::negative_interaction(AgentId(1), AgentId(2), 500, 300));

    ReputationUpdateSystem::run(&mut directory, &mut log);

    let rep1 = directory.get_knowledge(AgentId(1)).unwrap();
    let view = rep1.get_view(AgentId(2)).unwrap();
    assert_eq!(view.interaction_count, 3);
    assert!(view.score_ppm() > 500_000);
}

#[test]
fn test_reputation_decay_system() {
    let mut directory = directory_with_two_agents();
    let mut log = TransactionLog::new();
    log.add(TransactionEvent::positive_interaction(AgentId(1), AgentId(2), 5_000, 0));

    ReputationUpdateSystem::run(&mut directory, &mut log);

    let initial_score = directory.get_knowledge(AgentId(1)).unwrap().get_score(AgentId(2));

    ReputationDecaySystem::run(
        &mut directory,
        ReputationDecayConfig { decay_rate_ppm: 1_000 },
        CurrentTick(1_000),
    );

    let rep1 = directory.get_knowledge(AgentId(1)).unwrap();
    let view = rep1.get_view(AgentId(2)).unwrap();

    assert!(
        view.alpha + view.beta < 100_000,
        "Should be normalized: {} + {} = {}",
        view.alpha,
        view.beta,
        view.alpha + view.beta
    );

    let new_score = view.score_ppm();
    let difference = if new_score >= initial_score {
        new_score - initial_score
    } else {
        initial_score - new_score
    };
    assert!(difference < 100_000, "Score should be preserved: {} vs {}", initial_score, new_score);
}

#[test]
fn test_transaction_log_cleared_after_processing() {
    let mut directory = directory_with_two_agents();
    let mut log = TransactionLog::new();
    log.add(TransactionEvent::positive_interaction(AgentId(1), AgentId(2), 1_000, 100));
    assert_eq!(log.len(), 1);

    ReputationUpdateSystem::run(&mut directory, &mut log);

    assert_eq!(log.len(), 0);
}

#[test]
fn missing_participant_skipped_other_side_still_updates() {
    let mut directory = AgentReputations::new();
    directory.register_agent(AgentId(1));
    // Agent 2 has no reputation store.
    let mut log = TransactionLog::new();
    log.add(TransactionEvent::positive_interaction(AgentId(1), AgentId(2), 1_000, 100));

    ReputationUpdateSystem::run(&mut directory, &mut log);

    let rep1 = directory.get_knowledge(AgentId(1)).unwrap();
    assert!(rep1.get_score(AgentId(2)) > 500_000);
    assert!(directory.get_knowledge(AgentId(2)).is_none());
    assert!(log.is_empty());
}

#[test]
fn one_event_leaves_identical_deltas_on_both_sides() {
    let mut directory = directory_with_two_agents();
    // Give the two agents different starting views of each other.
    let mut seed = TransactionLog::new();
    seed.add(TransactionEvent::positive_interaction(AgentId(1), AgentId(2), 3_000, 10));
    ReputationUpdateSystem::run(&mut directory, &mut seed);

    let before1 = directory.get_knowledge(AgentId(1)).unwrap().get_view(AgentId(2)).unwrap();
    let before2 = directory.get_knowledge(AgentId(2)).unwrap().get_view(AgentId(1)).unwrap();

    let mut log = TransactionLog::new();
    log.add(TransactionEvent::negative_interaction(AgentId(1), AgentId(2), 2_500, 77));
    ReputationUpdateSystem::run(&mut directory, &mut log);

    let after1 = directory.get_knowledge(AgentId(1)).unwrap().get_view(AgentId(2)).unwrap();
    let after2 = directory.get_knowledge(AgentId(2)).unwrap().get_view(AgentId(1)).unwrap();

    assert_eq!(after1.alpha - before1.alpha, after2.alpha - before2.alpha);
    assert_eq!(after1.beta - before1.beta, after2.beta - before2.beta);
    assert_eq!(after1.last_interaction_tick, 77);
    assert_eq!(after2.last_interaction_tick, 77);
}

#[test]
fn rebalance_scenario_caps_confidence_and_keeps_decayed_score() {
    // A view with alpha = 500, beta = 5 whole units, last touched at tick
    // 0, examined 20_000 ticks later with a decay rate of 0.0001 per tick.
    let mut directory = AgentReputations::new();
    directory.register_agent(AgentId(1));
    let mut log = TransactionLog::new();
    log.add(TransactionEvent::positive_interaction(AgentId(1), AgentId(2), 499_000, 0));
    log.add(TransactionEvent::negative_interaction(AgentId(1), AgentId(2), 4_000, 0));
    ReputationUpdateSystem::run(&mut directory, &mut log);

    let before = directory.get_knowledge(AgentId(1)).unwrap().get_view(AgentId(2)).unwrap();
    assert_eq!(before.alpha, 500_000);
    assert_eq!(before.beta, 5_000);

    let expected = before.score_with_decay(20_000, 100);

    ReputationDecaySystem::run(
        &mut directory,
        ReputationDecayConfig { decay_rate_ppm: 100 },
        CurrentTick(20_000),
    );

    let view = directory.get_knowledge(AgentId(1)).unwrap().get_view(AgentId(2)).unwrap();
    assert!(
        view.alpha + view.beta <= 10_500,
        "confidence should be capped near 10 units: {}",
        view.alpha + view.beta
    );
    let score = view.score_ppm();
    let difference =
        if score >= expected { score - expected } else { expected - score };
    assert!(difference <= 1_000, "score should match the decayed one: {} vs {}", score, expected);
    assert_eq!(view.last_interaction_tick, 20_000);
}

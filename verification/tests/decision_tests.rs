//! Decision outputs and the utility maximizer.  Urgencies and utilities
//! are in ppm, need levels and weights in milli, distances in milli world
//! units.

use libreconomy::{
    Action, ActionType, AgentId, DecisionOutput, DecisionThresholds, DietType, Intent, Needs,
    ResourceLocation, SpeciesComponent, Transaction, UtilityMaximizer, UtilityWeights, WorldQuery,
};

#[test]
fn test_intent_seek_item() {
    let intent = Intent::SeekItem { item_type: "water".to_string(), urgency: 900_000 };

    assert_eq!(intent.intent_type(), "SeekItem");
    assert!(intent.is_critical());
}

#[test]
fn test_intent_rest_not_critical() {
    let intent = Intent::Rest;
    assert_eq!(intent.intent_type(), "Rest");
    assert!(!intent.is_critical());
}

#[test]
fn test_intent_wander() {
    let intent = Intent::Wander;
    assert_eq!(intent.intent_type(), "Wander");
    assert!(!intent.is_critical());
}

#[test]
fn test_action_initiate_trade() {
    let action = Action {
        target_agent: AgentId(42),
        action_type: ActionType::InitiateTrade { item: "wheat".to_string(), offer_price: 50_000 },
    };

    assert_eq!(action.target_agent, AgentId(42));
}

#[test]
fn test_action_hunt() {
    let action = Action {
        target_agent: AgentId(10),
        action_type: ActionType::Hunt { target: AgentId(10) },
    };

    assert_eq!(action.target_agent, AgentId(10));
}

#[test]
fn test_transaction_total_value() {
    let tx = Transaction {
        buyer: AgentId(1),
        seller: AgentId(2),
        item: "wheat".to_string(),
        quantity: 10,
        price: 5_000,
        success: true,
    };

    assert_eq!(tx.total_value(), 50_000);
    assert!(tx.is_successful());
}

#[test]
fn test_transaction_failed() {
    let tx = Transaction {
        buyer: AgentId(1),
        seller: AgentId(2),
        item: "wheat".to_string(),
        quantity: 0,
        price: 5_000,
        success: false,
    };

    assert_eq!(tx.total_value(), 0);
    assert!(!tx.is_successful());
}

#[test]
fn test_decision_output_intent() {
    let decision = DecisionOutput::Intent(Intent::Rest);

    assert!(decision.as_intent().is_some());
    assert!(decision.as_action().is_none());
    assert!(decision.as_transaction().is_none());
    assert!(!decision.is_critical());
}

#[test]
fn test_decision_output_action() {
    let action = Action {
        target_agent: AgentId(1),
        action_type: ActionType::InitiateTrade { item: "wood".to_string(), offer_price: 10_000 },
    };
    let decision = DecisionOutput::Action(action.clone());

    assert!(decision.as_action().is_some());
    assert_eq!(decision.as_action().unwrap(), &action);
    assert!(decision.is_critical());
}

#[test]
fn test_decision_output_transaction() {
    let tx = Transaction {
        buyer: AgentId(1),
        seller: AgentId(2),
        item: "wheat".to_string(),
        quantity: 10,
        price: 5_000,
        success: true,
    };
    let decision = DecisionOutput::Transaction(tx.clone());

    assert!(decision.as_transaction().is_some());
    assert_eq!(decision.as_transaction().unwrap(), &tx);
    assert!(!decision.is_critical());
}

struct MockWorldQuery {
    water_sources: Vec<ResourceLocation>,
    food_sources: Vec<ResourceLocation>,
}

impl WorldQuery for MockWorldQuery {
    fn get_nearby_agents(&self, _agent: AgentId, _max_count: usize) -> Vec<AgentId> {
        Vec::new()
    }

    fn get_nearby_resources(
        &self,
        _agent: AgentId,
        resource_type: &str,
        _max_radius: u64,
    ) -> Vec<ResourceLocation> {
        match resource_type {
            "water" => self.water_sources.clone(),
            "food" => self.food_sources.clone(),
            _ => Vec::new(),
        }
    }

    fn can_interact(&self, _agent1: AgentId, _agent2: AgentId) -> bool {
        false
    }
}

#[test]
fn test_default_configuration() {
    let dm = UtilityMaximizer::default();
    assert_eq!(dm.thresholds.high_thirst, 60_000);
    assert_eq!(dm.weights.survival, 2_000);
    assert_eq!(dm.resource_search_radius, 1_000_000);
}

#[test]
fn test_decide_high_thirst_with_nearby_water() {
    let needs = Needs::new(80_000, 20_000, 10_000);
    let world_query = MockWorldQuery {
        water_sources: vec![ResourceLocation::new(100_000, 100_000, 50_000)],
        food_sources: Vec::new(),
    };

    let dm = UtilityMaximizer::default();
    let decision = dm.decide(AgentId(1), &needs, None, &world_query);

    match decision {
        DecisionOutput::Intent(Intent::SeekItem { item_type, urgency }) => {
            assert_eq!(item_type, "water");
            assert!(urgency > 700_000);
        }
        _ => panic!("Expected SeekItem intent for water"),
    }
}

#[test]
fn test_decide_high_hunger_seeks_food() {
    let needs = Needs::new(20_000, 70_000, 10_000);
    let world_query = MockWorldQuery {
        water_sources: Vec::new(),
        food_sources: vec![ResourceLocation::new(200_000, 200_000, 100_000)],
    };

    let dm = UtilityMaximizer::default();
    let decision = dm.decide(AgentId(1), &needs, None, &world_query);

    match decision {
        DecisionOutput::Intent(Intent::SeekItem { item_type, .. }) => {
            assert_eq!(item_type, "food");
        }
        _ => panic!("Expected SeekItem intent for food"),
    }
}

#[test]
fn test_decide_high_tiredness_rests() {
    let needs = Needs::new(20_000, 20_000, 80_000);
    let world_query = MockWorldQuery { water_sources: Vec::new(), food_sources: Vec::new() };

    let dm = UtilityMaximizer::default();
    let decision = dm.decide(AgentId(1), &needs, None, &world_query);

    match decision {
        DecisionOutput::Intent(Intent::Rest) => {}
        _ => panic!("Expected Rest intent when tired"),
    }
}

#[test]
fn test_decide_no_urgent_needs_wanders() {
    let needs = Needs::new(30_000, 30_000, 40_000);
    let world_query = MockWorldQuery { water_sources: Vec::new(), food_sources: Vec::new() };

    let dm = UtilityMaximizer::default();
    let decision = dm.decide(AgentId(1), &needs, None, &world_query);

    match decision {
        DecisionOutput::Intent(Intent::Wander) => {}
        _ => panic!("Expected Wander intent when no urgent needs"),
    }
}

#[test]
fn test_decide_multiple_needs_selects_highest_utility() {
    let needs = Needs::new(85_000, 65_000, 50_000);
    let world_query = MockWorldQuery {
        water_sources: vec![ResourceLocation::new(100_000, 100_000, 50_000)],
        food_sources: vec![ResourceLocation::new(200_000, 200_000, 100_000)],
    };

    let dm = UtilityMaximizer::default();
    let decision = dm.decide(AgentId(1), &needs, None, &world_query);

    match decision {
        DecisionOutput::Intent(Intent::SeekItem { item_type, .. }) => {
            assert_eq!(item_type, "water");
        }
        _ => panic!("Expected SeekItem intent"),
    }
}

#[test]
fn test_calculate_utility() {
    let dm = UtilityMaximizer::default();

    let utility1 = dm.calculate_utility(900_000, 100_000, 1_000_000);
    assert!(utility1 > 1_500_000);

    let utility2 = dm.calculate_utility(200_000, 900_000, 1_000_000);
    assert!(utility2 < 500_000);

    assert!(utility1 > utility2);
}

#[test]
fn test_evaluate_seek_water_with_source() {
    let dm = UtilityMaximizer::default();
    let sources = vec![ResourceLocation::new(100_000, 100_000, 50_000)];

    let utility = dm.evaluate_seek_water(80_000, &sources);
    assert!(utility > 1_000_000);
}

#[test]
fn test_evaluate_seek_water_no_source() {
    let dm = UtilityMaximizer::default();
    let sources: Vec<ResourceLocation> = Vec::new();

    let utility = dm.evaluate_seek_water(80_000, &sources);
    assert!(utility > 0);
}

#[test]
fn test_custom_configuration() {
    let thresholds = DecisionThresholds { high_thirst: 40_000, ..Default::default() };
    let weights = UtilityWeights { survival: 3_000, ..Default::default() };

    let dm = UtilityMaximizer::new(thresholds, weights, 500_000);

    let needs = Needs::new(45_000, 20_000, 10_000);
    let world_query = MockWorldQuery {
        water_sources: vec![ResourceLocation::new(100_000, 100_000, 50_000)],
        food_sources: Vec::new(),
    };

    let decision = dm.decide(AgentId(1), &needs, None, &world_query);

    match decision {
        DecisionOutput::Intent(Intent::SeekItem { item_type, .. }) => {
            assert_eq!(item_type, "water");
        }
        _ => panic!("Expected water seeking with custom low threshold"),
    }
}

#[test]
fn decide_water_scenario_exact_urgency() {
    // Thirst 85, hunger 20, tiredness 10; water at distance 50 within a
    // radius of 1000 world units: seek water with urgency 0.85.
    let needs = Needs::new(85_000, 20_000, 10_000);
    let world_query = MockWorldQuery {
        water_sources: vec![ResourceLocation::new(0, 0, 50_000)],
        food_sources: Vec::new(),
    };

    let dm = UtilityMaximizer::default();
    let decision = dm.decide(AgentId(1), &needs, None, &world_query);

    match decision {
        DecisionOutput::Intent(Intent::SeekItem { item_type, urgency }) => {
            assert_eq!(item_type, "water");
            assert_eq!(urgency, 850_000);
        }
        _ => panic!("Expected SeekItem intent for water"),
    }
}

struct MeatOnlyWorld;

impl WorldQuery for MeatOnlyWorld {
    fn get_nearby_agents(&self, _agent: AgentId, _max_count: usize) -> Vec<AgentId> {
        Vec::new()
    }

    fn get_nearby_resources(
        &self,
        _agent: AgentId,
        resource_type: &str,
        _max_radius: u64,
    ) -> Vec<ResourceLocation> {
        if resource_type == "rabbit_meat" {
            vec![ResourceLocation::new(10_000, 0, 10_000)]
        } else {
            Vec::new()
        }
    }

    fn can_interact(&self, _agent1: AgentId, _agent2: AgentId) -> bool {
        false
    }
}

#[test]
fn decide_herbivore_ignores_meat_nearby() {
    // A grass-eating herbivore with hunger 80 and only rabbit meat nearby
    // still seeks grass: the diet forbids the present resource.
    let needs = Needs::new(10_000, 80_000, 10_000);
    let species = SpeciesComponent {
        species: libreconomy::Species::Rabbit,
        diet: DietType::Herbivore { preferred_plants: vec!["grass".to_string()] },
    };
    let world_query = MeatOnlyWorld;

    let dm = UtilityMaximizer::default();
    let decision = dm.decide(AgentId(1), &needs, Some(&species), &world_query);

    match decision {
        DecisionOutput::Intent(Intent::SeekItem { item_type, .. }) => {
            assert_eq!(item_type, "grass");
        }
        _ => panic!("Expected SeekItem intent for grass"),
    }
}

#[test]
fn food_candidates_follow_diet() {
    let herbivore = SpeciesComponent {
        species: libreconomy::Species::Rabbit,
        diet: DietType::Herbivore { preferred_plants: vec!["clover".to_string()] },
    };
    let candidates = libreconomy::decision::food_candidate_types(Some(&herbivore));
    assert_eq!(candidates, vec!["clover".to_string()]);

    let carnivore = SpeciesComponent {
        species: libreconomy::Species::Custom(1),
        diet: DietType::Carnivore { preferred_prey: vec![] },
    };
    let candidates = libreconomy::decision::food_candidate_types(Some(&carnivore));
    assert_eq!(candidates, vec!["rabbit_meat".to_string()]);

    let candidates = libreconomy::decision::food_candidate_types(None);
    assert_eq!(candidates, vec!["grass".to_string(), "food".to_string()]);
}

#[test]
fn evaluate_seek_food_prefers_best_candidate() {
    let dm = UtilityMaximizer::default();
    let candidates = vec!["grass".to_string(), "food".to_string()];
    // The second candidate is closer, so it wins.
    let lists = vec![
        vec![ResourceLocation::new(0, 0, 800_000)],
        vec![ResourceLocation::new(0, 0, 100_000)],
    ];
    let (utility, chosen) = dm.evaluate_seek_food(60_000, &candidates, &lists);
    assert_eq!(chosen, 1);
    assert!(utility > 0);

    // With no sources at all, fall back to the first candidate.
    let empty: Vec<Vec<ResourceLocation>> = vec![Vec::new(), Vec::new()];
    let (fallback_utility, fallback_chosen) = dm.evaluate_seek_food(60_000, &candidates, &empty);
    assert_eq!(fallback_chosen, 0);
    assert_eq!(fallback_utility, 1_200_000);
}

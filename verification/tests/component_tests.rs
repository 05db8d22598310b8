//! Needs, inventory, wallet, resource sources and the small per-agent
//! components.  Need levels are milli points; currency is milli units.

use libreconomy::{
    AgentId, AgentIdAllocator, Employment, Inventory, Knowledge, LearningSystem, NeedDecaySystem,
    Needs, NegotiationSystem, Preferences, ResourceSource, Skills, UtilityFunctionType, Wallet,
    MAX_NEEDS, MIN_NEEDS,
};

#[test]
fn test_needs_creation() {
    let needs = Needs { thirst: 1_000, hunger: 2_000, tiredness: 3_000 };
    assert_eq!(needs.thirst, 1_000);
    assert_eq!(needs.hunger, 2_000);
    assert_eq!(needs.tiredness, 3_000);
}

#[test]
fn test_needs_boundaries() {
    let needs = Needs { thirst: 0, hunger: 100_000, tiredness: 50_000 };
    assert!(needs.thirst <= 100_000);
    assert!(needs.hunger <= 100_000);
    assert!(needs.tiredness <= 100_000);
}

#[test]
fn needs_new_clamps_values() {
    let n = Needs::new(-5_000, 150_000, 0);
    assert!(n.thirst >= MIN_NEEDS && n.thirst <= MAX_NEEDS);
    assert!(n.hunger >= MIN_NEEDS && n.hunger <= MAX_NEEDS);
    assert_eq!(n.thirst, MIN_NEEDS);
    assert_eq!(n.hunger, MAX_NEEDS);
}

#[test]
fn needs_clamping_scenario() {
    // -5, 150 and 999 points all land back on the scale ends.
    let n = Needs::new(-5_000, 150_000, 999_000);
    assert_eq!(n.thirst, 0);
    assert_eq!(n.hunger, 100_000);
    assert_eq!(n.tiredness, 100_000);
}

#[test]
fn needs_clamp_in_place() {
    let mut n = Needs { thirst: 0, hunger: 200_000, tiredness: 0 };
    n.clamp();
    assert_eq!(n.thirst, MIN_NEEDS);
    assert_eq!(n.hunger, MAX_NEEDS);
}

#[test]
fn inventory_add_and_remove_is_safe() {
    let mut inv = Inventory::default();
    assert_eq!(inv.quantity("water"), 0);

    inv.add("water", 3);
    assert_eq!(inv.quantity("water"), 3);

    let removed = inv.remove("water", 2);
    assert_eq!(removed, 2);
    assert_eq!(inv.quantity("water"), 1);

    let removed2 = inv.remove("water", 10);
    assert_eq!(removed2, 1);
    assert_eq!(inv.quantity("water"), 0);
}

#[test]
fn inventory_set_quantity_and_other_items() {
    let mut inv = Inventory::new();
    inv.set_quantity("water", 5);
    inv.set_quantity("wood", 2);
    assert_eq!(inv.quantity("water"), 5);
    assert_eq!(inv.quantity("wood"), 2);

    inv.set_quantity("water", 0);
    assert_eq!(inv.quantity("water"), 0);
    assert_eq!(inv.quantity("wood"), 2);
}

#[test]
fn wallet_deposit_withdraw_non_negative() {
    let mut w = Wallet::new(-10_000);
    assert_eq!(w.currency, 0);

    w.deposit(5_000);
    assert_eq!(w.currency, 5_000);

    let got = w.withdraw(10_000);
    assert_eq!(got, 5_000);
    assert_eq!(w.currency, 0);

    w.deposit(-2_000);
    assert_eq!(w.currency, 0);

    let got2 = w.withdraw(-1_000);
    assert_eq!(got2, 0);
    assert_eq!(w.currency, 0);
}

#[test]
fn test_resource_source_creation() {
    let grass = ResourceSource::new("plant".to_string(), "grass".to_string(), 100, 100);

    assert_eq!(grass.resource_type, "plant");
    assert_eq!(grass.item_produced, "grass");
    assert_eq!(grass.regeneration_rate, 100);
    assert_eq!(grass.current_stock, 100);
    assert!(grass.is_available());
}

#[test]
fn test_resource_source_harvest() {
    let mut grass = ResourceSource::new("plant".to_string(), "grass".to_string(), 100, 100);

    let harvested = grass.harvest(30);
    assert_eq!(harvested, 30);
    assert_eq!(grass.current_stock, 70);

    let harvested = grass.harvest(100);
    assert_eq!(harvested, 70);
    assert_eq!(grass.current_stock, 0);
    assert!(!grass.is_available());
}

#[test]
fn test_resource_source_regenerate() {
    let mut grass = ResourceSource::new("plant".to_string(), "grass".to_string(), 5_000, 100);

    grass.harvest(50);
    assert_eq!(grass.current_stock, 50);

    grass.regenerate();
    assert_eq!(grass.current_stock, 55);

    grass.regenerate();
    assert_eq!(grass.current_stock, 60);
}

#[test]
fn test_resource_source_non_renewable() {
    let mut ore = ResourceSource::new("mineral".to_string(), "iron_ore".to_string(), 0, 50);

    ore.harvest(20);
    assert_eq!(ore.current_stock, 30);

    ore.regenerate();
    assert_eq!(ore.current_stock, 30);
}

#[test]
fn agent_id_allocator_uniqueness_and_ordering() {
    let mut alloc = AgentIdAllocator::new();

    let a1 = alloc.allocate().expect("first id");
    let a2 = alloc.allocate().expect("second id");
    let a3 = alloc.allocate().expect("third id");

    assert_eq!(a1, AgentId(1));
    assert_eq!(a2, AgentId(2));
    assert_eq!(a3, AgentId(3));
    assert!(a1 != a2 && a2 != a3 && a1 != a3);
}

#[test]
fn agent_id_allocator_peek_does_not_consume() {
    let mut alloc = AgentIdAllocator::new();
    assert_eq!(alloc.peek(), AgentId(1));
    assert_eq!(alloc.peek(), AgentId(1));
    let a1 = alloc.allocate().unwrap();
    assert_eq!(a1, AgentId(1));
    assert_eq!(alloc.peek(), AgentId(2));
}

#[test]
fn skills_component_defaults_and_levels() {
    let mut skills = Skills::default();
    assert_eq!(skills.level("trading"), None);
    skills.set_level("trading", 2);
    skills.set_level("farming", 5);
    assert_eq!(skills.level("trading"), Some(2));
    assert_eq!(skills.level("farming"), Some(5));
}

#[test]
fn knowledge_component_learning_updates_prices() {
    let mut k = Knowledge::default();
    assert_eq!(k.known_price("water"), None);

    LearningSystem::update(&mut k, "water", 3_500);
    LearningSystem::update(&mut k, "water", 4_000);
    LearningSystem::update(&mut k, "food", 2_250);

    assert_eq!(k.known_price("water"), Some(4_000));
    assert_eq!(k.known_price("food"), Some(2_250));
}

#[test]
fn employment_component_defaults_and_basic_usage() {
    let mut e = Employment::default();
    assert_eq!(e.job_status, None);
    assert_eq!(e.employer, None);
    assert!(e.employees.is_empty());

    e.job_status = Some("employed".into());
    e.employer = Some("Acme Inc".into());
    e.employees.push("WorkerA".into());
    e.employees.push("WorkerB".into());

    assert_eq!(e.job_status.as_deref(), Some("employed"));
    assert_eq!(e.employer.as_deref(), Some("Acme Inc"));
    assert_eq!(e.employees.len(), 2);
    assert_eq!(e.employees[0], "WorkerA");
    assert_eq!(e.employees[1], "WorkerB");
}

#[test]
fn preferences_component_construction_and_values() {
    let p1 = Preferences { utility_function: UtilityFunctionType::Linear, risk_tolerance: 250_000 };
    assert!(matches!(p1.utility_function, UtilityFunctionType::Linear));
    assert_eq!(p1.risk_tolerance, 250_000);

    let p2 =
        Preferences { utility_function: UtilityFunctionType::Exponential, risk_tolerance: 750_000 };
    assert!(matches!(p2.utility_function, UtilityFunctionType::Exponential));
    assert_eq!(p2.risk_tolerance, 750_000);

    let p3 = Preferences {
        utility_function: UtilityFunctionType::Custom("logit".into()),
        risk_tolerance: 500_000,
    };
    match &p3.utility_function {
        UtilityFunctionType::Custom(s) => assert_eq!(s, "logit"),
        _ => panic!("Expected Custom utility function"),
    }
    assert_eq!(p3.risk_tolerance, 500_000);
}

#[test]
fn test_knowledge_component_creation() {
    let k = Knowledge::new();
    assert_eq!(k.known_price("water"), None);
    assert!(k.trade_partners().is_empty());
}

#[test]
fn test_employment_component_creation() {
    let e = Employment { job_status: None, employer: None, employees: vec![] };
    assert!(e.employees.is_empty());
}

#[test]
fn test_preferences_component_creation() {
    let p = Preferences { utility_function: UtilityFunctionType::Linear, risk_tolerance: 500_000 };
    assert!(matches!(p.utility_function, UtilityFunctionType::Linear));
}

#[test]
fn test_need_decay_system() {
    let mut needs = Needs { thirst: 200, hunger: 300, tiredness: 0 };
    NeedDecaySystem::tick(&mut needs);
    assert!(needs.thirst > 200 && needs.hunger > 300);
}

#[test]
fn test_learning_system() {
    let mut knowledge = Knowledge::new();
    LearningSystem::update(&mut knowledge, "water", 1_500);
    assert_eq!(knowledge.known_price("water"), Some(1_500));
}

#[test]
fn test_negotiation_system() {
    assert!(NegotiationSystem::negotiate());
}

//! Diet and species behaviour.

use libreconomy::{DietType, Species, SpeciesComponent};

#[test]
fn test_diet_herbivore() {
    let diet = DietType::Herbivore {
        preferred_plants: vec!["grass".to_string(), "leaves".to_string()],
    };

    assert!(diet.can_eat_plant("grass"));
    assert!(diet.can_eat_plant("leaves"));
    assert!(!diet.can_eat_plant("fruit"));
    assert!(!diet.can_hunt(Species::Rabbit));
    assert!(!diet.can_hunt(Species::Human));
}

#[test]
fn test_diet_carnivore() {
    let diet = DietType::Carnivore { preferred_prey: vec![Species::Rabbit] };

    assert!(!diet.can_eat_plant("grass"));
    assert!(!diet.can_eat_plant("anything"));
    assert!(diet.can_hunt(Species::Rabbit));
    assert!(!diet.can_hunt(Species::Human));
}

#[test]
fn test_diet_omnivore() {
    let diet = DietType::Omnivore { plants: vec!["grass".to_string()], prey: vec![Species::Rabbit] };

    assert!(diet.can_eat_plant("grass"));
    assert!(!diet.can_eat_plant("fruit"));
    assert!(diet.can_hunt(Species::Rabbit));
    assert!(!diet.can_hunt(Species::Human));
}

#[test]
fn test_diet_empty_preferences_accepts_all() {
    let herbivore = DietType::Herbivore { preferred_plants: vec![] };
    assert!(herbivore.can_eat_plant("anything"));

    let carnivore = DietType::Carnivore { preferred_prey: vec![] };
    assert!(carnivore.can_hunt(Species::Rabbit));
    assert!(carnivore.can_hunt(Species::Human));
}

#[test]
fn test_species_rabbit() {
    let rabbit = SpeciesComponent::rabbit();
    assert_eq!(rabbit.species, Species::Rabbit);
    assert!(rabbit.diet.can_eat_plant("grass"));
    assert!(!rabbit.diet.can_hunt(Species::Human));
    assert!(!rabbit.diet.can_hunt(Species::Rabbit));
}

#[test]
fn test_species_human() {
    let human = SpeciesComponent::human();
    assert_eq!(human.species, Species::Human);
    assert!(human.diet.can_eat_plant("grass"));
    assert!(human.diet.can_eat_plant("food"));
    assert!(human.diet.can_hunt(Species::Rabbit));
    assert!(!human.diet.can_hunt(Species::Human));
}

#[test]
fn test_species_custom_diet() {
    let custom = SpeciesComponent::custom(7, DietType::Carnivore { preferred_prey: vec![] });
    assert_eq!(custom.species, Species::Custom(7));
    assert!(custom.diet.can_hunt(Species::Human));
    assert!(!custom.diet.can_eat_plant("grass"));
}

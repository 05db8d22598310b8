//! Species and diet: which plants an agent can eat and which species it
//! can hunt.

use vstd::prelude::*;

verus! {

use crate::text::str_eq;

/// Species of an agent.
#[derive(Debug, Clone, Copy, PartialEq, Eq, Hash, Structural)]
pub enum Species {
    Human,
    Rabbit,
    Custom(u32),
}

/// Diet defining what a species can eat.  An empty preference list means
/// "accepts all" for that category.
#[derive(Debug, Clone, PartialEq)]
pub enum DietType {
    /// Eats plants only.
    Herbivore { preferred_plants: Vec<String> },
    /// Eats prey only.
    Carnivore { preferred_prey: Vec<Species> },
    /// Eats both plants and prey.
    Omnivore { plants: Vec<String>, prey: Vec<Species> },
}

/// Whether a plant list allows the plant: an empty list allows all.
pub open spec fn spec_plants_allow(plants: Seq<String>, plant: Seq<char>) -> bool {
    plants.len() == 0 || exists|i: int| 0 <= i < plants.len() && (#[trigger] plants[i])@ == plant
}

/// Whether a prey list allows the species: an empty list allows all.
pub open spec fn spec_prey_allow(prey: Seq<Species>, target: Species) -> bool {
    prey.len() == 0 || exists|i: int| 0 <= i < prey.len() && (#[trigger] prey[i]) == target
}

/// Whether the diet can consume the plant.
pub open spec fn spec_can_eat_plant(diet: DietType, plant: Seq<char>) -> bool {
    match diet {
        DietType::Herbivore { preferred_plants } => spec_plants_allow(preferred_plants@, plant),
        DietType::Omnivore { plants, .. } => spec_plants_allow(plants@, plant),
        DietType::Carnivore { .. } => false,
    }
}

/// Whether the diet can hunt the species.
pub open spec fn spec_can_hunt(diet: DietType, target: Species) -> bool {
    match diet {
        DietType::Carnivore { preferred_prey } => spec_prey_allow(preferred_prey@, target),
        DietType::Omnivore { prey, .. } => spec_prey_allow(prey@, target),
        DietType::Herbivore { .. } => false,
    }
}

/// Search a plant list; an empty list accepts everything.
fn plants_allow(plants: &Vec<String>, plant_id: &str) -> (r: bool)
    ensures
        r == spec_plants_allow(plants@, plant_id@),
{
    let n = plants.len();
    if n == 0 {
        return true;
    }
    let mut i: usize = 0;
    while i < n
        invariant
            n == plants@.len(),
            i <= n,
            forall|j: int| 0 <= j < i ==> (#[trigger] plants@[j])@ != plant_id@,
        decreases n - i,
    {
        if str_eq(plants[i].as_str(), plant_id) {
            return true;
        }
        i = i + 1;
    }
    false
}

/// Search a prey list; an empty list accepts everything.
fn prey_allow(prey: &Vec<Species>, target: Species) -> (r: bool)
    ensures
        r == spec_prey_allow(prey@, target),
{
    let n = prey.len();
    if n == 0 {
        return true;
    }
    let mut i: usize = 0;
    while i < n
        invariant
            n == prey@.len(),
            i <= n,
            forall|j: int| 0 <= j < i ==> (#[trigger] prey@[j]) != target,
        decreases n - i,
    {
        if prey[i] == target {
            return true;
        }
        i = i + 1;
    }
    false
}

impl DietType {
    /// Whether this diet can consume a specific plant item.
    pub fn can_eat_plant(&self, plant_id: &str) -> (r: bool)
        ensures
            r == spec_can_eat_plant(*self, plant_id@),
    {
        match self {
            DietType::Herbivore { preferred_plants } => plants_allow(preferred_plants, plant_id),
            DietType::Omnivore { plants, .. } => plants_allow(plants, plant_id),
            DietType::Carnivore { .. } => false,
        }
    }

    /// Whether this diet can hunt a specific species.
    pub fn can_hunt(&self, prey_species: Species) -> (r: bool)
        ensures
            r == spec_can_hunt(*self, prey_species),
    {
        match self {
            DietType::Carnivore { preferred_prey } => prey_allow(preferred_prey, prey_species),
            DietType::Omnivore { prey, .. } => prey_allow(prey, prey_species),
            DietType::Herbivore { .. } => false,
        }
    }
}

/// Species and dietary preferences of an agent.
#[derive(Debug, Clone, PartialEq)]
pub struct SpeciesComponent {
    pub species: Species,
    pub diet: DietType,
}

impl SpeciesComponent {
    /// A default rabbit: herbivore preferring grass.
    pub fn rabbit() -> (r: Self)
        ensures
            r.species == Species::Rabbit,
            r.diet matches DietType::Herbivore { preferred_plants } && preferred_plants@.len() == 1
                && preferred_plants@[0]@ == "grass"@,
    {
        SpeciesComponent {
            species: Species::Rabbit,
            diet: DietType::Herbivore { preferred_plants: vec!["grass".to_owned()] },
        }
    }

    /// A default human: omnivore eating grass and food, hunting rabbits.
    pub fn human() -> (r: Self)
        ensures
            r.species == Species::Human,
            r.diet matches DietType::Omnivore { plants, prey } && plants@.len() == 2 && plants@[0]@
                == "grass"@ && plants@[1]@ == "food"@ && prey@ =~= seq![Species::Rabbit],
    {
        SpeciesComponent {
            species: Species::Human,
            diet: DietType::Omnivore {
                plants: vec!["grass".to_owned(), "food".to_owned()],
                prey: vec![Species::Rabbit],
            },
        }
    }

    /// A custom species with the given diet.
    pub fn custom(id: u32, diet: DietType) -> (r: Self)
        ensures
            r.species == Species::Custom(id),
            r.diet == diet,
    {
        SpeciesComponent { species: Species::Custom(id), diet }
    }
}

} // verus!

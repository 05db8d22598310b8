//! Utility-based decision making: score candidate intents from needs,
//! diet and nearby resources, and return the best one.
//!
//! Urgencies, distance factors and utilities are in ppm; need levels,
//! weights and thresholds in milli.  For each candidate,
//! utility = urgency * survival_weight + distance_factor * efficiency_weight
//! with the products computed exactly and rounded down at each division.

use vstd::prelude::*;

verus! {

use crate::components::Needs;
use crate::identity::AgentId;
use crate::intent::DecisionOutput;
use crate::intent::Intent;
use crate::species::DietType;
use crate::species::SpeciesComponent;
use crate::world_query::ResourceLocation;
use crate::world_query::WorldQuery;
use vstd::arithmetic::mul::lemma_mul_upper_bound;

/// Thresholds at which a need is considered high or critical, in milli
/// need points.
#[derive(Debug, Clone, Copy, PartialEq, Eq, Structural)]
pub struct DecisionThresholds {
    /// Thirst level at which water is sought urgently.
    pub critical_thirst: u32,
    /// Thirst level at which water seeking starts.
    pub high_thirst: u32,
    /// Hunger level at which food is sought urgently.
    pub critical_hunger: u32,
    /// Hunger level at which food seeking starts.
    pub high_hunger: u32,
    /// Tiredness level at which rest is mandatory.
    pub critical_tiredness: u32,
    /// Tiredness level at which rest is desirable.
    pub high_tiredness: u32,
}

impl Default for DecisionThresholds {
    /// Critical/high thirst 80/60, hunger 70/50, tiredness 85/70 points.
    fn default() -> (r: Self)
        ensures
            r == (DecisionThresholds {
                critical_thirst: 80_000u32,
                high_thirst: 60_000u32,
                critical_hunger: 70_000u32,
                high_hunger: 50_000u32,
                critical_tiredness: 85_000u32,
                high_tiredness: 70_000u32,
            }),
    {
        DecisionThresholds {
            critical_thirst: 80_000,
            high_thirst: 60_000,
            critical_hunger: 70_000,
            high_hunger: 50_000,
            critical_tiredness: 85_000,
            high_tiredness: 70_000,
        }
    }
}

/// Weights for utility calculation, in milli.
#[derive(Debug, Clone, Copy, PartialEq, Eq, Structural)]
pub struct UtilityWeights {
    /// Multiplier for survival-critical needs (hunger, thirst).
    pub survival: u32,
    /// Multiplier for comfort needs (tiredness).
    pub comfort: u32,
    /// Multiplier for distance efficiency (prefer closer resources).
    pub efficiency: u32,
}

impl Default for UtilityWeights {
    /// Survival 2.0, comfort 1.0, efficiency 0.5.
    fn default() -> (r: Self)
        ensures
            r == (UtilityWeights { survival: 2000u32, comfort: 1000u32, efficiency: 500u32 }),
    {
        UtilityWeights { survival: 2000, comfort: 1000, efficiency: 500 }
    }
}

/// A ppm value weighted by a milli weight, rounded down.
pub open spec fn spec_weighted(value_ppm: int, weight_milli: int) -> int {
    value_ppm * weight_milli / 1000
}

/// The distance factor in ppm: 1 - distance / radius, floored at zero.
pub open spec fn spec_distance_factor_ppm(distance: int, radius: int) -> int {
    if distance >= radius {
        0
    } else {
        (radius - distance) * 1_000_000 / radius
    }
}

/// Utility of pursuing a found resource: urgency weighted by survival plus
/// distance factor weighted by efficiency.
pub open spec fn spec_target_utility(
    urgency_ppm: int,
    survival_milli: int,
    distance: int,
    efficiency_milli: int,
    radius: int,
) -> int {
    spec_weighted(urgency_ppm, survival_milli) + spec_weighted(
        spec_distance_factor_ppm(distance, radius),
        efficiency_milli,
    )
}

/// Utility of searching for a resource that was not found: urgency
/// weighted by survival alone.
pub open spec fn spec_search_utility(urgency_ppm: int, survival_milli: int) -> int {
    spec_weighted(urgency_ppm, survival_milli)
}

/// Whether the diet (or the omnivore default for a missing one) accepts
/// `item` as food: the preferred plants where some are named, the default
/// pair grass/food where none are, rabbit meat for carnivores.
pub open spec fn spec_food_item_allowed(species: Option<&SpeciesComponent>, item: Seq<char>) -> bool {
    match species {
        None => item == "grass"@ || item == "food"@,
        Some(sc) => match sc.diet {
            DietType::Herbivore { preferred_plants } => if preferred_plants@.len() == 0 {
                item == "grass"@ || item == "food"@
            } else {
                exists|i: int|
                    0 <= i < preferred_plants@.len() && (#[trigger] preferred_plants@[i])@ == item
            },
            DietType::Carnivore { .. } => item == "rabbit_meat"@,
            DietType::Omnivore { plants, .. } => if plants@.len() == 0 {
                item == "grass"@ || item == "food"@
            } else {
                exists|i: int| 0 <= i < plants@.len() && (#[trigger] plants@[i])@ == item
            },
        },
    }
}

/// The candidate food types for a species: its preferred plants, the
/// default pair "grass"/"food" when none are named or no species is known,
/// and "rabbit_meat" for carnivores.
pub fn food_candidate_types(species: Option<&SpeciesComponent>) -> (r: Vec<String>)
    ensures
        r@.len() >= 1,
        forall|i: int| 0 <= i < r@.len() ==> spec_food_item_allowed(species, (#[trigger] r@[i])@),
        match species {
            None => r@.len() == 2 && r@[0]@ == "grass"@ && r@[1]@ == "food"@,
            Some(sc) => match sc.diet {
                DietType::Herbivore { preferred_plants } => if preferred_plants@.len() == 0 {
                    r@.len() == 2 && r@[0]@ == "grass"@ && r@[1]@ == "food"@
                } else {
                    r@ == preferred_plants@
                },
                DietType::Carnivore { .. } => r@.len() == 1 && r@[0]@ == "rabbit_meat"@,
                DietType::Omnivore { plants, .. } => if plants@.len() == 0 {
                    r@.len() == 2 && r@[0]@ == "grass"@ && r@[1]@ == "food"@
                } else {
                    r@ == plants@
                },
            },
        },
{
    match species {
        Some(sc) => match &sc.diet {
            DietType::Herbivore { preferred_plants } => {
                if preferred_plants.len() == 0 {
                    default_food_pair()
                } else {
                    clone_names(preferred_plants)
                }
            },
            DietType::Carnivore { .. } => {
                let mut meat: Vec<String> = Vec::new();
                meat.push("rabbit_meat".to_owned());
                meat
            },
            DietType::Omnivore { plants, .. } => {
                if plants.len() == 0 {
                    default_food_pair()
                } else {
                    clone_names(plants)
                }
            },
        },
        None => default_food_pair(),
    }
}

/// The default food pair for omnivorous or unknown diets.
fn default_food_pair() -> (r: Vec<String>)
    ensures
        r@.len() == 2,
        r@[0]@ == "grass"@,
        r@[1]@ == "food"@,
{
    let mut pair: Vec<String> = Vec::new();
    pair.push("grass".to_owned());
    pair.push("food".to_owned());
    pair
}

/// An element-for-element copy of a name list.
fn clone_names(names: &Vec<String>) -> (r: Vec<String>)
    ensures
        r@ == names@,
{
    let n = names.len();
    let mut copied: Vec<String> = Vec::new();
    let mut i: usize = 0;
    while i < n
        invariant
            n == names@.len(),
            i <= n,
            copied@ =~= names@.take(i as int),
        decreases n - i,
    {
        copied.push(names[i].clone());
        proof {
            assert(copied@ =~= names@.take(i + 1));
        }
        i = i + 1;
    }
    proof {
        assert(names@.take(n as int) =~= names@);
    }
    copied
}

/// The distance factor and weighted terms stay within ppm bounds.
proof fn lemma_distance_factor_bounds(distance: int, radius: int)
    requires
        radius >= 1,
        distance >= 0,
    ensures
        0 <= spec_distance_factor_ppm(distance, radius) <= 1_000_000,
{
    if distance < radius {
        assert((radius - distance) * 1_000_000 <= radius * 1_000_000) by (nonlinear_arith)
            requires 0 <= distance && distance < radius;
        assert(0 <= (radius - distance) * 1_000_000) by (nonlinear_arith)
            requires 0 <= distance && distance < radius;
        assert((radius - distance) * 1_000_000 / radius <= 1_000_000) by (nonlinear_arith)
            requires
                radius >= 1 && 0 <= (radius - distance) * 1_000_000 <= radius * 1_000_000,
        ;
        vstd::arithmetic::div_mod::lemma_div_pos_is_pos((radius - distance) * 1_000_000, radius);
    }
}

/// Weight a ppm value by a milli weight.
fn weighted(value_ppm: u32, weight_milli: u32) -> (r: u64)
    requires
        value_ppm <= 1_000_000,
    ensures
        r == spec_weighted(value_ppm as int, weight_milli as int),
        r <= 1_000_000 * (weight_milli as u64) / 1000,
{
    proof {
        lemma_mul_upper_bound(value_ppm as int, 1_000_000, weight_milli as int, u32::MAX as int);
        assert(value_ppm as int * weight_milli as int >= 0) by (nonlinear_arith)
            requires value_ppm >= 0 && weight_milli >= 0;
        assert(value_ppm as int * weight_milli as int <= 1_000_000 * weight_milli as int)
            by (nonlinear_arith)
            requires 0 <= value_ppm <= 1_000_000 && weight_milli >= 0;
        vstd::arithmetic::div_mod::lemma_div_is_ordered(
            value_ppm as int * weight_milli as int,
            1_000_000 * weight_milli as int,
            1000,
        );
    }
    value_ppm as u64 * weight_milli as u64 / 1000
}

/// Utility-based decision maker: evaluates the candidate intents and
/// returns the one with the highest utility, earlier candidates in the
/// fixed order water, food, rest, wander winning ties.
#[derive(Debug, Clone, Copy, PartialEq, Eq, Structural)]
pub struct UtilityMaximizer {
    /// Thresholds for triggering candidates.
    pub thresholds: DecisionThresholds,
    /// Weights for utility calculation.
    pub weights: UtilityWeights,
    /// Maximum radius to search for resources, in milli world units.
    pub resource_search_radius: u64,
}

impl Default for UtilityMaximizer {
    /// Default thresholds and weights with a search radius of 1000 world
    /// units.
    fn default() -> (r: Self)
        ensures
            r.thresholds == (DecisionThresholds {
                critical_thirst: 80_000u32,
                high_thirst: 60_000u32,
                critical_hunger: 70_000u32,
                high_hunger: 50_000u32,
                critical_tiredness: 85_000u32,
                high_tiredness: 70_000u32,
            }),
            r.weights == (UtilityWeights { survival: 2000u32, comfort: 1000u32, efficiency: 500u32 }),
            r.resource_search_radius == 1_000_000u64,
            r.wf(),
    {
        UtilityMaximizer {
            thresholds: Default::default(),
            weights: Default::default(),
            resource_search_radius: 1_000_000,
        }
    }
}

impl UtilityMaximizer {
    /// The search radius is positive, so distance factors are defined.
    pub open spec fn wf(&self) -> bool {
        self.resource_search_radius >= 1
    }

    /// Create a maximizer with custom configuration; the search radius
    /// must be positive.
    pub fn new(thresholds: DecisionThresholds, weights: UtilityWeights, resource_search_radius: u64) -> (r:
        Self)
        requires
            resource_search_radius >= 1,
        ensures
            r == (UtilityMaximizer { thresholds, weights, resource_search_radius }),
            r.wf(),
    {
        UtilityMaximizer { thresholds, weights, resource_search_radius }
    }

    /// Utility for a given urgency (ppm) and distance to a found resource.
    pub fn calculate_utility(&self, urgency_ppm: u32, distance: u64, max_radius: u64) -> (r: u64)
        requires
            urgency_ppm <= 1_000_000,
            max_radius >= 1,
        ensures
            r == spec_target_utility(
                urgency_ppm as int,
                self.weights.survival as int,
                distance as int,
                self.weights.efficiency as int,
                max_radius as int,
            ),
    {
        let survival_term = weighted(urgency_ppm, self.weights.survival);
        let factor = distance_factor_ppm(distance, max_radius);
        let efficiency_term = weighted(factor, self.weights.efficiency);
        survival_term + efficiency_term
    }

    /// Utility of seeking water given the thirst level and the water
    /// sources the world reported, closest first.  With a source in reach
    /// the distance factor contributes; without one the urgency-weighted
    /// floor still stands, so the utility never drops below it.
    pub fn evaluate_seek_water(&self, thirst_milli: u32, water_sources: &Vec<ResourceLocation>) -> (r:
        u64)
        requires
            self.wf(),
            thirst_milli <= 100_000,
        ensures
            r == spec_water_utility(*self, thirst_milli as int, water_sources@),
            r >= spec_search_utility(thirst_milli * 10, self.weights.survival as int),
    {
        let urgency: u32 = thirst_milli * 10;
        if water_sources.len() > 0 {
            let r = self.calculate_utility(
                urgency,
                water_sources[0].distance,
                self.resource_search_radius,
            );
            proof {
                lemma_distance_factor_bounds(
                    water_sources@[0].distance as int,
                    self.resource_search_radius as int,
                );
                assert(spec_weighted(
                    spec_distance_factor_ppm(
                        water_sources@[0].distance as int,
                        self.resource_search_radius as int,
                    ),
                    self.weights.efficiency as int,
                ) >= 0) by (nonlinear_arith)
                    requires
                        spec_distance_factor_ppm(
                            water_sources@[0].distance as int,
                            self.resource_search_radius as int,
                        ) >= 0,
                        self.weights.efficiency >= 0,
                ;
            }
            r
        } else {
            weighted(urgency, self.weights.survival)
        }
    }

    /// Utility and chosen candidate index for seeking food: every
    /// candidate type with a reported source is scored and the best one
    /// kept, earlier candidates winning ties; with no source at all the
    /// first candidate is kept with the urgency-weighted floor.
    pub fn evaluate_seek_food(
        &self,
        hunger_milli: u32,
        candidates: &Vec<String>,
        sources_per_candidate: &Vec<Vec<ResourceLocation>>,
    ) -> (r: (u64, usize))
        requires
            self.wf(),
            hunger_milli <= 100_000,
            candidates@.len() >= 1,
            sources_per_candidate@.len() == candidates@.len(),
        ensures
            r.1 < candidates@.len(),
            (exists|i: int|
                0 <= i < sources_per_candidate@.len() && (#[trigger] sources_per_candidate@[i]).len()
                    > 0) ==> {
                &&& sources_per_candidate@[r.1 as int].len() > 0
                &&& r.0 == spec_food_option_utility(
                    *self,
                    hunger_milli as int,
                    sources_per_candidate@,
                    r.1 as int,
                )
                &&& forall|i: int|
                    0 <= i < sources_per_candidate@.len() && (#[trigger] sources_per_candidate@[i]).len()
                        > 0 ==> spec_food_option_utility(
                        *self,
                        hunger_milli as int,
                        sources_per_candidate@,
                        i,
                    ) <= r.0
                &&& forall|i: int|
                    0 <= i < r.1 && (#[trigger] sources_per_candidate@[i]).len() > 0
                        ==> spec_food_option_utility(
                        *self,
                        hunger_milli as int,
                        sources_per_candidate@,
                        i,
                    ) < r.0
            },
            (forall|i: int|
                0 <= i < sources_per_candidate@.len() ==> (#[trigger] sources_per_candidate@[i]).len()
                    == 0) ==> r.1 == 0 && r.0 == spec_search_utility(
                hunger_milli * 10,
                self.weights.survival as int,
            ),
    {
        let urgency: u32 = hunger_milli * 10;
        let n = candidates.len();
        let mut best_utility: u64 = 0;
        let mut best_index: usize = 0;
        let mut found = false;
        let mut i: usize = 0;
        while i < n
            invariant
                self.wf(),
                hunger_milli <= 100_000,
                urgency == hunger_milli * 10,
                n == candidates@.len(),
                sources_per_candidate@.len() == n,
                i <= n,
                !found ==> best_utility == 0 && best_index == 0,
                !found ==> forall|j: int|
                    0 <= j < i ==> (#[trigger] sources_per_candidate@[j]).len() == 0,
                found ==> best_index < i && sources_per_candidate@[best_index as int].len() > 0
                    && best_utility == spec_food_option_utility(
                    *self,
                    hunger_milli as int,
                    sources_per_candidate@,
                    best_index as int,
                ),
                found ==> forall|j: int|
                    0 <= j < i && (#[trigger] sources_per_candidate@[j]).len() > 0
                        ==> spec_food_option_utility(
                        *self,
                        hunger_milli as int,
                        sources_per_candidate@,
                        j,
                    ) <= best_utility,
                found ==> forall|j: int|
                    0 <= j < best_index && (#[trigger] sources_per_candidate@[j]).len() > 0
                        ==> spec_food_option_utility(
                        *self,
                        hunger_milli as int,
                        sources_per_candidate@,
                        j,
                    ) < best_utility,
            decreases n - i,
        {
            if sources_per_candidate[i].len() > 0 {
                let utility = self.calculate_utility(
                    urgency,
                    sources_per_candidate[i][0].distance,
                    self.resource_search_radius,
                );
                if !found || utility > best_utility {
                    best_utility = utility;
                    best_index = i;
                    found = true;
                }
            }
            i = i + 1;
        }
        if found {
            (best_utility, best_index)
        } else {
            (weighted(urgency, self.weights.survival), 0)
        }
    }

    /// Make a decision for the given agent from its needs, its optional
    /// species and the world's spatial answers.
    ///
    /// Candidates are evaluated in the fixed order water, food, rest,
    /// wander; the highest utility wins and earlier candidates win ties.
    /// Whatever the world reports: only these intents come out; a seek
    /// intent carries the need's exact urgency and respects the diet; with
    /// no need above its high threshold the agent wanders.
    pub fn decide<Q: WorldQuery>(
        &self,
        agent_id: AgentId,
        needs: &Needs,
        species: Option<&SpeciesComponent>,
        world_query: &Q,
    ) -> (r: DecisionOutput)
        requires
            self.wf(),
            needs.wf(),
        ensures
            r is Intent,
            r matches DecisionOutput::Intent(intent) ==> match intent {
                Intent::SeekItem { item_type, urgency } => (item_type@ == "water"@ && urgency
                    == needs.thirst * 10 && needs.thirst > self.thresholds.high_thirst) || (urgency
                    == needs.hunger * 10 && needs.hunger > self.thresholds.high_hunger
                    && spec_food_item_allowed(species, item_type@)),
                Intent::Rest => needs.tiredness > self.thresholds.high_tiredness,
                Intent::Wander => true,
                _ => false,
            },
            needs.thirst <= self.thresholds.high_thirst && needs.hunger
                <= self.thresholds.high_hunger && needs.tiredness <= self.thresholds.high_tiredness
                ==> r == DecisionOutput::Intent(Intent::Wander),
            r == DecisionOutput::Intent(Intent::Wander) && needs.thirst
                > self.thresholds.high_thirst ==> spec_weighted(
                needs.thirst * 10,
                self.weights.survival as int,
            ) < 100_000,
            r == DecisionOutput::Intent(Intent::Wander) && needs.hunger
                > self.thresholds.high_hunger ==> spec_weighted(
                needs.hunger * 10,
                self.weights.survival as int,
            ) < 100_000,
            r == DecisionOutput::Intent(Intent::Wander) && needs.tiredness
                > self.thresholds.high_tiredness ==> spec_weighted(
                needs.tiredness * 10,
                self.weights.comfort as int,
            ) < 100_000,
            needs.thirst <= self.thresholds.high_thirst && needs.hunger
                <= self.thresholds.high_hunger && needs.tiredness > self.thresholds.high_tiredness
                ==> (r == DecisionOutput::Intent(Intent::Rest) <==> spec_weighted(
                needs.tiredness * 10,
                self.weights.comfort as int,
            ) >= 100_000),
            r == DecisionOutput::Intent(Intent::Rest) ==> spec_weighted(
                needs.tiredness * 10,
                self.weights.comfort as int,
            ) >= 100_000,
    {
        let mut have = false;
        let mut best_utility: u64 = 0;
        let mut best_intent = Intent::Wander;
        if needs.thirst > self.thresholds.high_thirst {
            let water_sources = world_query.get_nearby_resources(
                agent_id,
                "water",
                self.resource_search_radius,
            );
            let utility = self.evaluate_seek_water(needs.thirst, &water_sources);
            best_intent = Intent::SeekItem {
                item_type: "water".to_owned(),
                urgency: needs.thirst * 10,
            };
            best_utility = utility;
            have = true;
        }
        if needs.hunger > self.thresholds.high_hunger {
            let candidates = food_candidate_types(species);
            let m = candidates.len();
            let mut lists: Vec<Vec<ResourceLocation>> = Vec::new();
            let mut i: usize = 0;
            while i < m
                invariant
                    m == candidates@.len(),
                    i <= m,
                    lists@.len() == i,
                decreases m - i,
            {
                let reported = world_query.get_nearby_resources(
                    agent_id,
                    candidates[i].as_str(),
                    self.resource_search_radius,
                );
                lists.push(reported);
                i = i + 1;
            }
            let picked = self.evaluate_seek_food(needs.hunger, &candidates, &lists);
            let item = candidates[picked.1].clone();
            proof {
                assert(spec_food_item_allowed(species, item@));
            }
            if !have || picked.0 > best_utility {
                best_intent = Intent::SeekItem { item_type: item, urgency: needs.hunger * 10 };
                best_utility = picked.0;
                have = true;
            }
        }
        if needs.tiredness > self.thresholds.high_tiredness {
            let utility = weighted(needs.tiredness * 10, self.weights.comfort);
            if !have || utility > best_utility {
                best_intent = Intent::Rest;
                best_utility = utility;
                have = true;
            }
        }
        if !have || best_utility < 100_000 {
            best_intent = Intent::Wander;
        }
        DecisionOutput::Intent(best_intent)
    }
}

/// Utility of seeking water over the reported sources: the closest one if
/// any was found, otherwise the searching floor.
pub open spec fn spec_water_utility(m: UtilityMaximizer, thirst_milli: int, sources: Seq<
    ResourceLocation,
>) -> int {
    if sources.len() > 0 {
        spec_target_utility(
            thirst_milli * 10,
            m.weights.survival as int,
            sources[0].distance as int,
            m.weights.efficiency as int,
            m.resource_search_radius as int,
        )
    } else {
        spec_search_utility(thirst_milli * 10, m.weights.survival as int)
    }
}

/// Utility of pursuing food candidate `i`, whose source list is known to
/// be non-empty.
pub open spec fn spec_food_option_utility(
    m: UtilityMaximizer,
    hunger_milli: int,
    lists: Seq<Vec<ResourceLocation>>,
    i: int,
) -> int {
    spec_target_utility(
        hunger_milli * 10,
        m.weights.survival as int,
        lists[i][0].distance as int,
        m.weights.efficiency as int,
        m.resource_search_radius as int,
    )
}

/// The distance factor in ppm for a found resource.
fn distance_factor_ppm(distance: u64, radius: u64) -> (r: u32)
    requires
        radius >= 1,
    ensures
        r == spec_distance_factor_ppm(distance as int, radius as int),
        r <= 1_000_000,
{
    if distance >= radius {
        0
    } else {
        proof {
            lemma_distance_factor_bounds(distance as int, radius as int);
            assert((radius - distance) as int * 1_000_000 <= u128::MAX) by (nonlinear_arith)
                requires 0 < radius - distance <= u64::MAX;
        }
        let num: u128 = (radius - distance) as u128 * 1_000_000;
        (num / radius as u128) as u32
    }
}

} // verus!

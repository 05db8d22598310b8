//! Agent-based economy simulation core: utility-driven decision making and a
//! Beta-distribution reputation model with temporal decay.
//!
//! All scalar quantities are integers in fixed-point form: need levels and
//! outcome weights are in thousandths of a unit (milli), scores, urgencies and
//! decay factors in parts per million (ppm). This keeps every computation
//! exact and lets contracts state results to the last digit.

pub mod components;
pub mod decision;
pub mod events;
pub mod identity;
pub mod intent;
pub mod items;
pub mod knowledge;
pub mod reputation;
pub mod species;
pub mod systems;
pub mod table;
mod text;
pub mod world_query;

pub use components::{
    Agent, Employment, Inventory, Knowledge, LearningSystem, NeedDecaySystem, Needs,
    NegotiationSystem, Preferences, ResourceSource, Skills, UtilityFunctionType, Wallet, MAX_NEEDS,
    MIN_NEEDS,
};
pub use decision::{DecisionThresholds, UtilityMaximizer, UtilityWeights};
pub use events::{Outcome, TransactionEvent, TransactionLog};
pub use identity::{AgentId, AgentIdAllocator, AgentIdError};
pub use intent::{Action, ActionType, DecisionOutput, Intent, Transaction};
pub use items::{ItemRegistry, ItemType, NeedType};
pub use knowledge::ReputationKnowledge;
pub use reputation::ReputationView;
pub use species::{DietType, Species, SpeciesComponent};
pub use systems::{
    AgentReputations, CurrentTick, ReputationDecayConfig, ReputationDecaySystem,
    ReputationUpdateSystem,
};
pub use world_query::{ResourceLocation, WorldQuery};

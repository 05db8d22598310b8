//! Decision outputs: high-level intents, targeted actions and completed
//! transactions.
//!
//! Urgencies are in ppm (700_000 is 0.7); prices and wages in milli
//! currency units.

use vstd::prelude::*;

verus! {

use crate::identity::AgentId;

/// High-level intent: an unexecuted goal the host translates into concrete
/// movement and actions.
#[derive(Debug, Clone, PartialEq)]
pub enum Intent {
    /// Seek a specific item type (food, water, materials, ...).
    SeekItem {
        /// Type of item to seek (for example "water" or "food").
        item_type: String,
        /// How urgently the item is needed, in ppm of one whole unit.
        urgency: u32,
    },
    /// Find employment matching the given skills.
    FindWork {
        /// Skills the agent can offer.
        skill_types: Vec<String>,
    },
    /// Seek trade opportunities.
    SeekTrade {
        /// True if buying, false if selling.
        buying: bool,
        /// Type of item to buy or sell.
        item_type: String,
    },
    /// Rest to recover tiredness.
    Rest,
    /// Wander aimlessly (exploration or no pressing needs).
    Wander,
}

/// Whether an intent is survival-critical: only seeking an item with
/// urgency above 0.7 counts.
pub open spec fn spec_intent_is_critical(i: Intent) -> bool {
    match i {
        Intent::SeekItem { urgency, .. } => urgency > 700_000,
        _ => false,
    }
}

/// The label naming an intent's variant.
pub open spec fn spec_intent_type(i: Intent) -> Seq<char> {
    match i {
        Intent::SeekItem { .. } => "SeekItem"@,
        Intent::FindWork { .. } => "FindWork"@,
        Intent::SeekTrade { .. } => "SeekTrade"@,
        Intent::Rest => "Rest"@,
        Intent::Wander => "Wander"@,
    }
}

impl Intent {
    /// Whether this is a survival-critical intent.
    pub fn is_critical(&self) -> (r: bool)
        ensures
            r == spec_intent_is_critical(*self),
    {
        match self {
            Intent::SeekItem { urgency, .. } => *urgency > 700_000,
            _ => false,
        }
    }

    /// The intent's variant name, for diagnostics.
    pub fn intent_type(&self) -> (r: &'static str)
        ensures
            r@ == spec_intent_type(*self),
    {
        match self {
            Intent::SeekItem { .. } => "SeekItem",
            Intent::FindWork { .. } => "FindWork",
            Intent::SeekTrade { .. } => "SeekTrade",
            Intent::Rest => "Rest",
            Intent::Wander => "Wander",
        }
    }
}

/// Types of actions that can be performed against a target agent.
#[derive(Debug, Clone, PartialEq)]
pub enum ActionType {
    /// Initiate a trade negotiation.
    InitiateTrade {
        /// Item to trade.
        item: String,
        /// Proposed price in milli currency units.
        offer_price: i64,
    },
    /// Hunt another agent for food.
    Hunt {
        /// Target agent to hunt.
        target: AgentId,
    },
    /// Consume a resource at a location (milli world units).
    Consume {
        /// X coordinate of the resource.
        resource_x: i64,
        /// Y coordinate of the resource.
        resource_y: i64,
    },
    /// Accept an employment offer.
    AcceptEmployment {
        /// Proposed wage in milli currency units.
        wage: i64,
    },
    /// Ask for information (prices, locations, ...).
    AskForInformation {
        /// What kind of information is requested.
        query_type: String,
    },
}

/// A concrete action aimed at a specific agent.
#[derive(Debug, Clone, PartialEq)]
pub struct Action {
    /// The agent being targeted.
    pub target_agent: AgentId,
    /// What to do.
    pub action_type: ActionType,
}

/// A completed economic interaction between two agents.
#[derive(Debug, Clone, PartialEq)]
pub struct Transaction {
    /// Agent buying the item.
    pub buyer: AgentId,
    /// Agent selling the item.
    pub seller: AgentId,
    /// Item traded.
    pub item: String,
    /// Quantity of items.
    pub quantity: u32,
    /// Price per item in milli currency units.
    pub price: i64,
    /// Whether the transaction completed successfully.
    pub success: bool,
}

impl Transaction {
    /// Total transaction value: quantity times price per item, in milli
    /// currency units.
    pub fn total_value(&self) -> (r: i64)
        requires
            i64::MIN <= self.quantity * self.price <= i64::MAX,
        ensures
            r == self.quantity * self.price,
    {
        proof {
            assert(self.quantity as i128 * self.price as i128 == self.quantity * self.price)
                by (nonlinear_arith);
        }
        (self.quantity as i128 * self.price as i128) as i64
    }

    /// Whether this represents a successful trade of at least one item.
    pub fn is_successful(&self) -> (r: bool)
        ensures
            r == (self.success && self.quantity > 0),
    {
        self.success && self.quantity > 0
    }
}

/// Output of a decision system: an intent, an action or a completed
/// transaction.  The decision engine itself only ever produces intents.
#[derive(Debug, Clone, PartialEq)]
pub enum DecisionOutput {
    /// High-level intent to achieve a goal.
    Intent(Intent),
    /// Specific action targeting an agent.
    Action(Action),
    /// Completed transaction.
    Transaction(Transaction),
}

impl DecisionOutput {
    /// The wrapped intent, if this is an intent.
    pub fn as_intent(&self) -> (r: Option<&Intent>)
        ensures
            (r is Some) == (*self is Intent),
            r matches Some(i) ==> *self == DecisionOutput::Intent(*i),
    {
        match self {
            DecisionOutput::Intent(intent) => Some(intent),
            _ => None,
        }
    }

    /// The wrapped action, if this is an action.
    pub fn as_action(&self) -> (r: Option<&Action>)
        ensures
            (r is Some) == (*self is Action),
            r matches Some(a) ==> *self == DecisionOutput::Action(*a),
    {
        match self {
            DecisionOutput::Action(action) => Some(action),
            _ => None,
        }
    }

    /// The wrapped transaction, if this is a transaction.
    pub fn as_transaction(&self) -> (r: Option<&Transaction>)
        ensures
            (r is Some) == (*self is Transaction),
            r matches Some(t) ==> *self == DecisionOutput::Transaction(*t),
    {
        match self {
            DecisionOutput::Transaction(tx) => Some(tx),
            _ => None,
        }
    }

    /// Whether this output calls for immediate action: critical intents
    /// and all actions do, completed transactions never do.
    pub fn is_critical(&self) -> (r: bool)
        ensures
            r == match *self {
                DecisionOutput::Intent(i) => spec_intent_is_critical(i),
                DecisionOutput::Action(_) => true,
                DecisionOutput::Transaction(_) => false,
            },
    {
        match self {
            DecisionOutput::Intent(intent) => intent.is_critical(),
            DecisionOutput::Action(_) => true,
            DecisionOutput::Transaction(_) => false,
        }
    }
}

} // verus!

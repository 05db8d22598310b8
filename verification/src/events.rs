//! Transaction events and the queue that batches them for reputation
//! processing.
//!
//! Outcome weights and prices are in milli fixed point, so a weight of one
//! whole unit is 1000.

use vstd::prelude::*;

verus! {

use crate::identity::AgentId;

/// Outcome of an interaction or transaction.  The payload is the weight's
/// magnitude in milli; the variant carries the sign.
#[derive(Debug, Clone, Copy, PartialEq, Eq, Structural)]
pub enum Outcome {
    /// Positive outcome with weight magnitude (increases alpha).
    Positive(u32),
    /// Negative outcome with weight magnitude (increases beta).
    Negative(u32),
    /// Neutral outcome (no reputation change).
    Neutral,
}

/// The signed weight of an outcome in milli: positive magnitude, negated
/// magnitude, or zero.
pub open spec fn spec_outcome_weight(o: Outcome) -> i64 {
    match o {
        Outcome::Positive(w) => w as i64,
        Outcome::Negative(w) => (-(w as int)) as i64,
        Outcome::Neutral => 0,
    }
}

impl Outcome {
    /// The signed weight for reputation updates, in milli: positive
    /// outcomes count as-is, negative ones with a flipped sign, neutral as
    /// zero.
    pub fn weight(&self) -> (r: i64)
        ensures
            r == spec_outcome_weight(*self),
    {
        match self {
            Outcome::Positive(w) => *w as i64,
            Outcome::Negative(w) => -(*w as i64),
            Outcome::Neutral => 0,
        }
    }

    /// Whether this is a positive outcome.
    pub fn is_positive(&self) -> (r: bool)
        ensures
            r == (self is Positive),
    {
        match self {
            Outcome::Positive(_) => true,
            _ => false,
        }
    }

    /// Whether this is a negative outcome.
    pub fn is_negative(&self) -> (r: bool)
        ensures
            r == (self is Negative),
    {
        match self {
            Outcome::Negative(_) => true,
            _ => false,
        }
    }

    /// Whether this is a neutral outcome.
    pub fn is_neutral(&self) -> (r: bool)
        ensures
            r == (self is Neutral),
    {
        match self {
            Outcome::Neutral => true,
            _ => false,
        }
    }
}

/// A transaction event between two agents, queued until the next
/// reputation-processing pass.
#[derive(Debug, Clone, PartialEq)]
pub struct TransactionEvent {
    /// First agent involved in the transaction.
    pub agent1: AgentId,
    /// Second agent involved in the transaction.
    pub agent2: AgentId,
    /// Item exchanged, if any.
    pub item: Option<String>,
    /// Price paid in milli currency units, if any.
    pub price: Option<i64>,
    /// Outcome of the transaction.
    pub outcome: Outcome,
    /// Tick when the transaction occurred.
    pub tick: u64,
}

impl TransactionEvent {
    /// Create a new transaction event.
    pub fn new(
        agent1: AgentId,
        agent2: AgentId,
        item: Option<String>,
        price: Option<i64>,
        outcome: Outcome,
        tick: u64,
    ) -> (r: Self)
        ensures
            r.agent1 == agent1,
            r.agent2 == agent2,
            r.item == item,
            r.price == price,
            r.outcome == outcome,
            r.tick == tick,
    {
        TransactionEvent { agent1, agent2, item, price, outcome, tick }
    }

    /// A successful trade: positive outcome of one whole unit, with item
    /// and price recorded.
    pub fn successful_trade(buyer: AgentId, seller: AgentId, item: String, price_milli: i64, tick: u64) -> (r:
        Self)
        ensures
            r.agent1 == buyer,
            r.agent2 == seller,
            r.item == Some(item),
            r.price == Some(price_milli),
            r.outcome == Outcome::Positive(1000u32),
            r.tick == tick,
    {
        TransactionEvent {
            agent1: buyer,
            agent2: seller,
            item: Some(item),
            price: Some(price_milli),
            outcome: Outcome::Positive(1000),
            tick,
        }
    }

    /// A failed trade: negative outcome of the given magnitude, with the
    /// item recorded but no price.
    pub fn failed_trade(buyer: AgentId, seller: AgentId, item: String, weight_milli: u32, tick: u64) -> (r:
        Self)
        ensures
            r.agent1 == buyer,
            r.agent2 == seller,
            r.item == Some(item),
            r.price == None::<i64>,
            r.outcome == Outcome::Negative(weight_milli),
            r.tick == tick,
    {
        TransactionEvent {
            agent1: buyer,
            agent2: seller,
            item: Some(item),
            price: None,
            outcome: Outcome::Negative(weight_milli),
            tick,
        }
    }

    /// A positive interaction that is not a trade.
    pub fn positive_interaction(agent1: AgentId, agent2: AgentId, weight_milli: u32, tick: u64) -> (r: Self)
        ensures
            r.agent1 == agent1,
            r.agent2 == agent2,
            r.item == None::<String>,
            r.price == None::<i64>,
            r.outcome == Outcome::Positive(weight_milli),
            r.tick == tick,
    {
        TransactionEvent {
            agent1,
            agent2,
            item: None,
            price: None,
            outcome: Outcome::Positive(weight_milli),
            tick,
        }
    }

    /// A negative interaction that is not a trade.
    pub fn negative_interaction(agent1: AgentId, agent2: AgentId, weight_milli: u32, tick: u64) -> (r: Self)
        ensures
            r.agent1 == agent1,
            r.agent2 == agent2,
            r.item == None::<String>,
            r.price == None::<i64>,
            r.outcome == Outcome::Negative(weight_milli),
            r.tick == tick,
    {
        TransactionEvent {
            agent1,
            agent2,
            item: None,
            price: None,
            outcome: Outcome::Negative(weight_milli),
            tick,
        }
    }
}

/// Queue of transaction events awaiting one batched processing pass.
#[derive(Debug, Clone)]
pub struct TransactionLog {
    events: Vec<TransactionEvent>,
}

impl TransactionLog {
    /// The queued events in arrival order.
    pub closed spec fn spec_events(&self) -> Seq<TransactionEvent> {
        self.events@
    }

    /// Create a new empty transaction log.
    pub fn new() -> (r: Self)
        ensures
            r.spec_events() =~= Seq::<TransactionEvent>::empty(),
    {
        TransactionLog { events: Vec::new() }
    }

    /// Append a transaction event to the log.
    pub fn add(&mut self, event: TransactionEvent)
        ensures
            final(self).spec_events() == old(self).spec_events().push(event),
    {
        self.events.push(event);
    }

    /// All queued events.
    pub fn events(&self) -> (r: &Vec<TransactionEvent>)
        ensures
            r@ == self.spec_events(),
    {
        &self.events
    }

    /// Remove every queued event.
    pub fn clear(&mut self)
        ensures
            final(self).spec_events() =~= Seq::<TransactionEvent>::empty(),
    {
        self.events.clear();
    }

    /// The number of queued events.
    pub fn len(&self) -> (r: usize)
        ensures
            r == self.spec_events().len(),
    {
        self.events.len()
    }

    /// Whether the log holds no events.
    pub fn is_empty(&self) -> (r: bool)
        ensures
            r == (self.spec_events().len() == 0),
    {
        self.events.is_empty()
    }

    /// Take every queued event out of the log, leaving it empty.
    pub fn drain(&mut self) -> (r: Vec<TransactionEvent>)
        ensures
            r@ == old(self).spec_events(),
            final(self).spec_events() =~= Seq::<TransactionEvent>::empty(),
    {
        let mut drained: Vec<TransactionEvent> = Vec::new();
        core::mem::swap(&mut drained, &mut self.events);
        drained
    }
}

impl Default for TransactionLog {
    /// Same as `TransactionLog::new`.
    fn default() -> (r: Self)
        ensures
            r.spec_events() =~= Seq::<TransactionEvent>::empty(),
    {
        TransactionLog::new()
    }
}

} // verus!

//! Per-agent components: needs, inventory, wallet, skills, knowledge,
//! employment, preferences and resource sources.
//!
//! Need levels are in milli (one thousandth of a point on the 0..100
//! scale), currency and prices in milli currency units.

use vstd::prelude::*;

verus! {

use crate::identity::AgentId;
use crate::table::spec_assoc_find;
use crate::table::assoc_unique;
use crate::table::assoc_find_index;
use crate::table::lemma_assoc_find_at_index;
use crate::table::lemma_assoc_find_not_present;
use crate::table::lemma_assoc_update;
use crate::table::lemma_assoc_remove;
use crate::table::lemma_assoc_push;

/// Upper bound for need values: 100 points, in milli.
pub const MAX_NEEDS: u32 = 100_000;

/// Lower bound for need values.
pub const MIN_NEEDS: u32 = 0;

/// A need value clamped into [MIN_NEEDS, MAX_NEEDS].
pub open spec fn spec_clamp_need(v: int) -> u32 {
    if v < 0 {
        0u32
    } else if v > 100_000 {
        100_000u32
    } else {
        v as u32
    }
}

/// Agent needs: thirst, hunger and tiredness, each in milli points of the
/// 0..100 scale and always clamped to it.
#[derive(Debug, Clone, Copy, PartialEq, Eq, Structural)]
pub struct Needs {
    pub thirst: u32,
    pub hunger: u32,
    pub tiredness: u32,
}

impl Needs {
    /// All three values are within bounds.
    pub open spec fn wf(&self) -> bool {
        self.thirst <= MAX_NEEDS && self.hunger <= MAX_NEEDS && self.tiredness <= MAX_NEEDS
    }

    /// Create needs from milli values, clamping each into bounds.
    pub fn new(thirst: i64, hunger: i64, tiredness: i64) -> (r: Self)
        ensures
            r.thirst == spec_clamp_need(thirst as int),
            r.hunger == spec_clamp_need(hunger as int),
            r.tiredness == spec_clamp_need(tiredness as int),
            r.wf(),
    {
        Needs {
            thirst: clamp_need(thirst),
            hunger: clamp_need(hunger),
            tiredness: clamp_need(tiredness),
        }
    }

    /// Clamp the current needs in place.
    pub fn clamp(&mut self)
        ensures
            final(self).thirst == spec_clamp_need(old(self).thirst as int),
            final(self).hunger == spec_clamp_need(old(self).hunger as int),
            final(self).tiredness == spec_clamp_need(old(self).tiredness as int),
            final(self).wf(),
    {
        if self.thirst > MAX_NEEDS {
            self.thirst = MAX_NEEDS;
        }
        if self.hunger > MAX_NEEDS {
            self.hunger = MAX_NEEDS;
        }
        if self.tiredness > MAX_NEEDS {
            self.tiredness = MAX_NEEDS;
        }
    }
}

/// Clamp a milli need value into [0, MAX_NEEDS].
fn clamp_need(v: i64) -> (r: u32)
    ensures
        r == spec_clamp_need(v as int),
{
    if v < 0 {
        0
    } else if v > MAX_NEEDS as i64 {
        MAX_NEEDS
    } else {
        v as u32
    }
}

/// Marker component designating an entity as an agent with a unique id.
#[derive(Debug, Clone, Copy, PartialEq, Eq, Structural)]
pub struct Agent {
    pub id: AgentId,
}

/// Agent inventory: item id to quantity, quantities always positive for
/// stored entries, operations saturating and panic-free.
#[derive(Debug, Clone)]
pub struct Inventory {
    items: Vec<(String, u32)>,
}

impl Inventory {
    /// The stored (item id, quantity) pairs.
    pub closed spec fn spec_items(&self) -> Seq<(String, u32)> {
        self.items@
    }

    /// Keys are unique and no entry stores a zero quantity.
    pub open spec fn wf(&self) -> bool {
        &&& assoc_unique(self.spec_items())
        &&& forall|i: int| 0 <= i < self.spec_items().len() ==> (#[trigger] self.spec_items()[i]).1 > 0
    }

    /// The quantity held of `key`: zero when absent.
    pub open spec fn spec_quantity(&self, key: Seq<char>) -> u32 {
        match spec_assoc_find(self.spec_items(), key) {
            Some(q) => q,
            None => 0u32,
        }
    }

    /// Create an empty inventory.
    pub fn new() -> (r: Self)
        ensures
            r.spec_items() =~= Seq::<(String, u32)>::empty(),
            r.wf(),
            forall|k: Seq<char>| r.spec_quantity(k) == 0,
    {
        Inventory { items: Vec::new() }
    }

    /// Quantity held of an item; zero when the item is absent.
    pub fn quantity(&self, item_id: &str) -> (r: u32)
        ensures
            r == self.spec_quantity(item_id@),
    {
        match assoc_find_index(&self.items, item_id) {
            Some(i) => {
                proof {
                    lemma_assoc_find_at_index(self.items@, item_id@, i as int);
                }
                self.items[i].1
            },
            None => {
                proof {
                    lemma_assoc_find_not_present(self.items@, item_id@);
                }
                0
            },
        }
    }

    /// Set the absolute quantity of an item; zero removes the entry.
    pub fn set_quantity(&mut self, item_id: &str, quantity: u32)
        requires
            old(self).wf(),
        ensures
            final(self).wf(),
            final(self).spec_quantity(item_id@) == quantity,
            forall|k: Seq<char>|
                k != item_id@ ==> final(self).spec_quantity(k) == old(self).spec_quantity(k),
    {
        match assoc_find_index(&self.items, item_id) {
            Some(i) => {
                proof {
                    lemma_assoc_find_at_index(self.items@, item_id@, i as int);
                    if quantity == 0 {
                        lemma_assoc_remove(self.items@, i as int);
                    }
                }
                if quantity == 0 {
                    self.items.remove(i);
                } else {
                    let key = self.items[i].0.clone();
                    proof {
                        lemma_assoc_update(self.items@, i as int, key, quantity);
                    }
                    self.items[i] = (key, quantity);
                }
            },
            None => {
                proof {
                    lemma_assoc_find_not_present(self.items@, item_id@);
                }
                if quantity > 0 {
                    let key = item_id.to_owned();
                    proof {
                        lemma_assoc_push(self.items@, key, quantity);
                    }
                    self.items.push((key, quantity));
                }
            },
        }
    }

    /// Add to an item's quantity, saturating at u32::MAX.
    pub fn add(&mut self, item_id: &str, delta: u32)
        requires
            old(self).wf(),
        ensures
            final(self).wf(),
            final(self).spec_quantity(item_id@) == if old(self).spec_quantity(item_id@) + delta
                <= u32::MAX {
                (old(self).spec_quantity(item_id@) + delta) as u32
            } else {
                u32::MAX
            },
            forall|k: Seq<char>|
                k != item_id@ ==> final(self).spec_quantity(k) == old(self).spec_quantity(k),
    {
        if delta == 0 {
            return ;
        }
        let current = self.quantity(item_id);
        let new_qty = current.saturating_add(delta);
        self.set_quantity(item_id, new_qty);
    }

    /// Remove up to `delta` of an item; returns the amount actually
    /// removed.
    pub fn remove(&mut self, item_id: &str, delta: u32) -> (removed: u32)
        requires
            old(self).wf(),
        ensures
            final(self).wf(),
            removed == if delta <= old(self).spec_quantity(item_id@) {
                delta
            } else {
                old(self).spec_quantity(item_id@)
            },
            final(self).spec_quantity(item_id@) == old(self).spec_quantity(item_id@) - removed,
            forall|k: Seq<char>|
                k != item_id@ ==> final(self).spec_quantity(k) == old(self).spec_quantity(k),
    {
        if delta == 0 {
            return 0;
        }
        let current = self.quantity(item_id);
        let removed = if current < delta {
            current
        } else {
            delta
        };
        self.set_quantity(item_id, current - removed);
        removed
    }
}

impl Default for Inventory {
    /// An empty inventory.
    fn default() -> (r: Self)
        ensures
            r.spec_items() =~= Seq::<(String, u32)>::empty(),
            r.wf(),
    {
        Inventory::new()
    }
}

/// Agent wallet holding a non-negative balance in milli currency units.
#[derive(Debug, Clone, Copy, PartialEq, Eq, Structural)]
pub struct Wallet {
    pub currency: u64,
}

impl Wallet {
    /// Create a wallet; a negative starting balance is clamped to zero.
    pub fn new(currency_milli: i64) -> (r: Self)
        ensures
            r.currency == if currency_milli >= 0 {
                currency_milli as u64
            } else {
                0u64
            },
    {
        Wallet {
            currency: if currency_milli >= 0 {
                currency_milli as u64
            } else {
                0
            },
        }
    }

    /// Deposit a non-positive amount is ignored; otherwise the balance
    /// grows by the amount, saturating at u64::MAX.
    pub fn deposit(&mut self, amount_milli: i64)
        ensures
            final(self).currency == if amount_milli <= 0 {
                old(self).currency
            } else if old(self).currency + amount_milli <= u64::MAX {
                (old(self).currency + amount_milli) as u64
            } else {
                u64::MAX
            },
    {
        if amount_milli <= 0 {
            return ;
        }
        self.currency = self.currency.saturating_add(amount_milli as u64);
    }

    /// Withdraw up to `amount_milli`, never overdrawing; returns the
    /// amount actually withdrawn.
    pub fn withdraw(&mut self, amount_milli: i64) -> (withdrawn: u64)
        ensures
            withdrawn == if amount_milli <= 0 {
                0u64
            } else if old(self).currency <= amount_milli {
                old(self).currency
            } else {
                amount_milli as u64
            },
            final(self).currency == old(self).currency - withdrawn,
    {
        if amount_milli <= 0 {
            return 0;
        }
        let amount = amount_milli as u64;
        let withdrawn = if self.currency < amount {
            self.currency
        } else {
            amount
        };
        self.currency = self.currency - withdrawn;
        withdrawn
    }
}

/// Agent skill levels, keyed by skill id.
#[derive(Debug, Clone)]
pub struct Skills {
    skills: Vec<(String, u32)>,
}

impl Skills {
    /// The stored (skill id, level) pairs.
    pub closed spec fn spec_skills(&self) -> Seq<(String, u32)> {
        self.skills@
    }

    /// Keys are unique.
    pub open spec fn wf(&self) -> bool {
        assoc_unique(self.spec_skills())
    }

    /// The recorded level of `key`, if any.
    pub open spec fn spec_level(&self, key: Seq<char>) -> Option<u32> {
        spec_assoc_find(self.spec_skills(), key)
    }

    /// Create an empty skill table.
    pub fn new() -> (r: Self)
        ensures
            r.spec_skills() =~= Seq::<(String, u32)>::empty(),
            r.wf(),
    {
        Skills { skills: Vec::new() }
    }

    /// The level of a skill, if recorded.
    pub fn level(&self, skill_id: &str) -> (r: Option<u32>)
        ensures
            r == self.spec_level(skill_id@),
    {
        match assoc_find_index(&self.skills, skill_id) {
            Some(i) => {
                proof {
                    lemma_assoc_find_at_index(self.skills@, skill_id@, i as int);
                }
                Some(self.skills[i].1)
            },
            None => {
                proof {
                    lemma_assoc_find_not_present(self.skills@, skill_id@);
                }
                None
            },
        }
    }

    /// Record or overwrite the level of a skill.
    pub fn set_level(&mut self, skill_id: &str, level: u32)
        requires
            old(self).wf(),
        ensures
            final(self).wf(),
            final(self).spec_level(skill_id@) == Some(level),
            forall|k: Seq<char>|
                k != skill_id@ ==> final(self).spec_level(k) == old(self).spec_level(k),
    {
        match assoc_find_index(&self.skills, skill_id) {
            Some(i) => {
                let key = self.skills[i].0.clone();
                proof {
                    lemma_assoc_update(self.skills@, i as int, key, level);
                }
                self.skills[i] = (key, level);
            },
            None => {
                let key = skill_id.to_owned();
                proof {
                    lemma_assoc_push(self.skills@, key, level);
                }
                self.skills.push((key, level));
            },
        }
    }
}

impl Default for Skills {
    /// An empty skill table.
    fn default() -> (r: Self)
        ensures
            r.spec_skills() =~= Seq::<(String, u32)>::empty(),
            r.wf(),
    {
        Skills::new()
    }
}

/// Agent knowledge: observed prices (milli currency) and known trade
/// partners.
#[derive(Debug, Clone)]
pub struct Knowledge {
    known_prices: Vec<(String, i64)>,
    trade_partners: Vec<String>,
}

impl Knowledge {
    /// The stored (item id, price) pairs.
    pub closed spec fn spec_prices(&self) -> Seq<(String, i64)> {
        self.known_prices@
    }

    /// The recorded trade partners, in insertion order.
    pub closed spec fn spec_partners(&self) -> Seq<String> {
        self.trade_partners@
    }

    /// Keys are unique.
    pub open spec fn wf(&self) -> bool {
        assoc_unique(self.spec_prices())
    }

    /// The last observed price of `key`, if any.
    pub open spec fn spec_price(&self, key: Seq<char>) -> Option<i64> {
        spec_assoc_find(self.spec_prices(), key)
    }

    /// Create an empty knowledge store.
    pub fn new() -> (r: Self)
        ensures
            r.spec_prices() =~= Seq::<(String, i64)>::empty(),
            r.spec_partners() =~= Seq::<String>::empty(),
            r.wf(),
    {
        Knowledge { known_prices: Vec::new(), trade_partners: Vec::new() }
    }

    /// The known trade partners.
    pub fn trade_partners(&self) -> (r: &Vec<String>)
        ensures
            r@ == self.spec_partners(),
    {
        &self.trade_partners
    }

    /// Record one more trade partner.
    pub fn add_trade_partner(&mut self, name: String)
        ensures
            final(self).spec_partners() == old(self).spec_partners().push(name),
            final(self).spec_prices() == old(self).spec_prices(),
    {
        self.trade_partners.push(name);
    }

    /// The last observed price of an item, if any.
    pub fn known_price(&self, item_id: &str) -> (r: Option<i64>)
        ensures
            r == self.spec_price(item_id@),
    {
        match assoc_find_index(&self.known_prices, item_id) {
            Some(i) => {
                proof {
                    lemma_assoc_find_at_index(self.known_prices@, item_id@, i as int);
                }
                Some(self.known_prices[i].1)
            },
            None => {
                proof {
                    lemma_assoc_find_not_present(self.known_prices@, item_id@);
                }
                None
            },
        }
    }

    /// Record or overwrite the observed price of an item.
    pub fn record_price(&mut self, item_id: &str, price_milli: i64)
        requires
            old(self).wf(),
        ensures
            final(self).wf(),
            final(self).spec_price(item_id@) == Some(price_milli),
            forall|k: Seq<char>|
                k != item_id@ ==> final(self).spec_price(k) == old(self).spec_price(k),
            final(self).spec_partners() == old(self).spec_partners(),
    {
        match assoc_find_index(&self.known_prices, item_id) {
            Some(i) => {
                let key = self.known_prices[i].0.clone();
                proof {
                    lemma_assoc_update(self.known_prices@, i as int, key, price_milli);
                }
                self.known_prices[i] = (key, price_milli);
            },
            None => {
                let key = item_id.to_owned();
                proof {
                    lemma_assoc_push(self.known_prices@, key, price_milli);
                }
                self.known_prices.push((key, price_milli));
            },
        }
    }
}

impl Default for Knowledge {
    /// An empty knowledge store.
    fn default() -> (r: Self)
        ensures
            r.spec_prices() =~= Seq::<(String, i64)>::empty(),
            r.spec_partners() =~= Seq::<String>::empty(),
            r.wf(),
    {
        Knowledge::new()
    }
}

/// Agent employment: job status, employer and subordinates.
#[derive(Debug, Clone)]
pub struct Employment {
    pub job_status: Option<String>,
    pub employer: Option<String>,
    pub employees: Vec<String>,
}

impl Default for Employment {
    /// No job, no employer, no employees.
    fn default() -> (r: Self)
        ensures
            r.job_status == None::<String>,
            r.employer == None::<String>,
            r.employees@ =~= Seq::<String>::empty(),
    {
        Employment { job_status: None, employer: None, employees: Vec::new() }
    }
}

/// Utility function type for preferences.
#[derive(Debug, Clone, PartialEq)]
pub enum UtilityFunctionType {
    Linear,
    Exponential,
    Custom(String),
}

/// Agent preferences: utility shape and risk tolerance in ppm.
#[derive(Debug, Clone, PartialEq)]
pub struct Preferences {
    pub utility_function: UtilityFunctionType,
    pub risk_tolerance: u32,
}

/// A resource-producing entity such as a water source or a grass patch,
/// with stock tracking and regeneration.
#[derive(Debug, Clone, PartialEq)]
pub struct ResourceSource {
    /// Kind of resource (for example "plant" or "water").
    pub resource_type: String,
    /// The item id this source produces.
    pub item_produced: String,
    /// Stock regenerated per tick, in milli items; below one whole item
    /// per tick nothing accrues.
    pub regeneration_rate: u32,
    /// Currently available quantity.
    pub current_stock: u32,
}

impl ResourceSource {
    /// Create a new resource source.
    pub fn new(resource_type: String, item_produced: String, regeneration_rate: u32, current_stock: u32) -> (r:
        Self)
        ensures
            r.resource_type == resource_type,
            r.item_produced == item_produced,
            r.regeneration_rate == regeneration_rate,
            r.current_stock == current_stock,
    {
        ResourceSource { resource_type, item_produced, regeneration_rate, current_stock }
    }

    /// Harvest up to `amount`, returning what was actually taken.
    pub fn harvest(&mut self, amount: u32) -> (harvested: u32)
        ensures
            harvested == if amount <= old(self).current_stock {
                amount
            } else {
                old(self).current_stock
            },
            final(self).current_stock == old(self).current_stock - harvested,
            final(self).resource_type == old(self).resource_type,
            final(self).item_produced == old(self).item_produced,
            final(self).regeneration_rate == old(self).regeneration_rate,
    {
        let harvested = if self.current_stock < amount {
            self.current_stock
        } else {
            amount
        };
        self.current_stock = self.current_stock - harvested;
        harvested
    }

    /// Regenerate stock by the whole-item part of the regeneration rate,
    /// saturating at u32::MAX.
    pub fn regenerate(&mut self)
        ensures
            final(self).current_stock == if old(self).regeneration_rate > 0 {
                if old(self).current_stock + old(self).regeneration_rate / 1000 <= u32::MAX {
                    (old(self).current_stock + old(self).regeneration_rate / 1000) as u32
                } else {
                    u32::MAX
                }
            } else {
                old(self).current_stock
            },
            final(self).resource_type == old(self).resource_type,
            final(self).item_produced == old(self).item_produced,
            final(self).regeneration_rate == old(self).regeneration_rate,
    {
        if self.regeneration_rate > 0 {
            let regen_amount = self.regeneration_rate / 1000;
            self.current_stock = self.current_stock.saturating_add(regen_amount);
        }
    }

    /// Whether any stock is available.
    pub fn is_available(&self) -> (r: bool)
        ensures
            r == (self.current_stock > 0),
    {
        self.current_stock > 0
    }
}

/// System that makes needs grow a little each tick.
pub struct NeedDecaySystem;

impl NeedDecaySystem {
    /// One tick of need growth: thirst and hunger each gain 10 milli
    /// (0.01 points), clamped at the maximum.
    pub fn tick(needs: &mut Needs)
        ensures
            final(needs).thirst == if old(needs).thirst + 10 <= MAX_NEEDS {
                (old(needs).thirst + 10) as u32
            } else {
                MAX_NEEDS
            },
            final(needs).hunger == if old(needs).hunger + 10 <= MAX_NEEDS {
                (old(needs).hunger + 10) as u32
            } else {
                MAX_NEEDS
            },
            final(needs).tiredness == old(needs).tiredness,
            old(needs).wf() ==> final(needs).wf(),
    {
        needs.thirst = if needs.thirst <= MAX_NEEDS - 10 {
            needs.thirst + 10
        } else {
            MAX_NEEDS
        };
        needs.hunger = if needs.hunger <= MAX_NEEDS - 10 {
            needs.hunger + 10
        } else {
            MAX_NEEDS
        };
    }
}

/// System that records observed prices into agent knowledge.
pub struct LearningSystem;

impl LearningSystem {
    /// Record the observed price of an item.
    pub fn update(knowledge: &mut Knowledge, item: &str, price_milli: i64)
        requires
            old(knowledge).wf(),
        ensures
            final(knowledge).wf(),
            final(knowledge).spec_price(item@) == Some(price_milli),
            forall|k: Seq<char>|
                k != item@ ==> final(knowledge).spec_price(k) == old(knowledge).spec_price(k),
    {
        knowledge.record_price(item, price_milli);
    }
}

/// Placeholder negotiation system.
pub struct NegotiationSystem;

impl NegotiationSystem {
    /// Negotiation always succeeds in this placeholder.
    pub fn negotiate() -> (r: bool)
        ensures
            r,
    {
        true
    }
}

} // verus!

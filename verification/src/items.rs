//! Item types and the registry mapping item ids to their need-satisfaction
//! properties.  Satisfaction values are in milli need points; negative
//! values reduce the need.

use vstd::prelude::*;

verus! {

use crate::table::spec_assoc_find;
use crate::table::assoc_unique;
use crate::table::assoc_find_index;
use crate::table::lemma_assoc_find_at_index;
use crate::table::lemma_assoc_find_not_present;
use crate::table::lemma_assoc_update;
use crate::table::lemma_assoc_remove;
use crate::table::lemma_assoc_push;

/// Types of needs that items can satisfy.
#[derive(Debug, Clone, Copy, PartialEq, Eq, Hash, Structural)]
pub enum NeedType {
    Thirst,
    Hunger,
    Tiredness,
}

/// The satisfaction entry recorded for `need`, if any.
pub open spec fn spec_need_find(s: Seq<(NeedType, i64)>, need: NeedType) -> Option<i64>
    decreases s.len(),
{
    if s.len() == 0 {
        None
    } else if s[0].0 == need {
        Some(s[0].1)
    } else {
        spec_need_find(s.skip(1), need)
    }
}

/// No two satisfaction entries share a need.
pub open spec fn need_keys_unique(s: Seq<(NeedType, i64)>) -> bool {
    forall|i: int, j: int| 0 <= i < j < s.len() ==> (#[trigger] s[i]).0 != (#[trigger] s[j]).0
}

/// If `need` first occurs at index `i`, the find returns that entry.
proof fn lemma_need_find_at_index(s: Seq<(NeedType, i64)>, need: NeedType, i: int)
    requires
        0 <= i < s.len(),
        s[i].0 == need,
        forall|j: int| 0 <= j < i ==> (#[trigger] s[j]).0 != need,
    ensures
        spec_need_find(s, need) == Some(s[i].1),
    decreases i,
{
    if i > 0 {
        lemma_need_find_at_index(s.skip(1), need, i - 1);
    }
}

/// If no entry carries `need`, the find returns nothing.
proof fn lemma_need_find_not_present(s: Seq<(NeedType, i64)>, need: NeedType)
    requires
        forall|j: int| 0 <= j < s.len() ==> (#[trigger] s[j]).0 != need,
    ensures
        spec_need_find(s, need) == None::<i64>,
    decreases s.len(),
{
    if s.len() > 0 {
        lemma_need_find_not_present(s.skip(1), need);
    }
}

/// An item type with its need-satisfaction properties.
#[derive(Debug, Clone, PartialEq)]
pub struct ItemType {
    /// The item's id.
    pub id: String,
    /// The (need, satisfaction) pairs, with no need listed twice.
    pub satisfies: Vec<(NeedType, i64)>,
    /// Whether consuming the item destroys it.
    pub consumable: bool,
}

impl ItemType {
    /// The stored (need, satisfaction) pairs.
    pub open spec fn spec_satisfies(&self) -> Seq<(NeedType, i64)> {
        self.satisfies@
    }

    /// No need is listed twice.
    pub open spec fn wf(&self) -> bool {
        need_keys_unique(self.spec_satisfies())
    }

    /// The satisfaction recorded for `need`, zero when absent.
    pub open spec fn spec_satisfaction(&self, need: NeedType) -> i64 {
        match spec_need_find(self.spec_satisfies(), need) {
            Some(v) => v,
            None => 0i64,
        }
    }

    /// Create a new item type from distinct (need, satisfaction) pairs.
    pub fn new(id: String, satisfies: Vec<(NeedType, i64)>, consumable: bool) -> (r: Self)
        requires
            need_keys_unique(satisfies@),
        ensures
            r.id == id,
            r.spec_satisfies() == satisfies@,
            r.consumable == consumable,
            r.wf(),
    {
        ItemType { id, satisfies, consumable }
    }

    /// How much this item satisfies a particular need; zero when the item
    /// does not affect it.
    pub fn satisfaction_for(&self, need: NeedType) -> (r: i64)
        ensures
            r == self.spec_satisfaction(need),
    {
        let n = self.satisfies.len();
        let mut i: usize = 0;
        while i < n
            invariant
                n == self.satisfies@.len(),
                i <= n,
                forall|j: int| 0 <= j < i ==> (#[trigger] self.satisfies@[j]).0 != need,
            decreases n - i,
        {
            if self.satisfies[i].0 == need {
                proof {
                    lemma_need_find_at_index(self.satisfies@, need, i as int);
                }
                return self.satisfies[i].1;
            }
            i = i + 1;
        }
        proof {
            lemma_need_find_not_present(self.satisfies@, need);
        }
        0
    }

    /// Whether this item affects a particular need.
    pub fn satisfies_need(&self, need: NeedType) -> (r: bool)
        ensures
            r == (self.spec_satisfaction(need) != 0),
    {
        self.satisfaction_for(need) != 0
    }
}

/// The ids of the items in `s` that affect `need`, in registry order.
pub open spec fn spec_satisfying_ids(s: Seq<(String, ItemType)>, need: NeedType) -> Seq<String>
    decreases s.len(),
{
    if s.len() == 0 {
        Seq::empty()
    } else {
        let rest = spec_satisfying_ids(s.drop_last(), need);
        if s.last().1.spec_satisfaction(need) != 0 {
            rest.push(s.last().0)
        } else {
            rest
        }
    }
}

/// Registry of all item types in the simulation, keyed by item id.
#[derive(Debug, Clone)]
pub struct ItemRegistry {
    items: Vec<(String, ItemType)>,
}

impl ItemRegistry {
    /// The registered (id, item) pairs, in registration order.
    pub closed spec fn spec_items(&self) -> Seq<(String, ItemType)> {
        self.items@
    }

    /// Keys are unique, each key equals its item's id, and every item is
    /// well formed.
    pub open spec fn wf(&self) -> bool {
        &&& assoc_unique(self.spec_items())
        &&& forall|i: int|
            0 <= i < self.spec_items().len() ==> (#[trigger] self.spec_items()[i]).1.id
                == self.spec_items()[i].0
        &&& forall|i: int| 0 <= i < self.spec_items().len() ==> (#[trigger] self.spec_items()[i]).1.wf()
    }

    /// The registered item with the given id, if any.
    pub open spec fn spec_get(&self, key: Seq<char>) -> Option<ItemType> {
        spec_assoc_find(self.spec_items(), key)
    }

    /// Create an empty item registry.
    pub fn new() -> (r: Self)
        ensures
            r.spec_items() =~= Seq::<(String, ItemType)>::empty(),
            r.wf(),
    {
        ItemRegistry { items: Vec::new() }
    }

    /// Register an item type, overwriting any item with the same id.
    pub fn register(&mut self, item: ItemType)
        requires
            old(self).wf(),
            item.wf(),
        ensures
            final(self).wf(),
            final(self).spec_get(item.id@) == Some(item),
            forall|k: Seq<char>| k != item.id@ ==> final(self).spec_get(k) == old(self).spec_get(k),
            old(self).spec_get(item.id@) is Some ==> final(self).spec_items().len() == old(
                self,
            ).spec_items().len(),
            old(self).spec_get(item.id@) is None ==> final(self).spec_items().len() == old(
                self,
            ).spec_items().len() + 1,
    {
        let key = item.id.clone();
        match assoc_find_index(&self.items, key.as_str()) {
            Some(i) => {
                proof {
                    lemma_assoc_find_at_index(self.items@, key@, i as int);
                    lemma_assoc_update(self.items@, i as int, key, item);
                }
                self.items[i] = (key, item);
            },
            None => {
                proof {
                    lemma_assoc_find_not_present(self.items@, key@);
                    lemma_assoc_push(self.items@, key, item);
                }
                self.items.push((key, item));
            },
        }
    }

    /// The registered item with the given id, if any.
    pub fn get(&self, item_id: &str) -> (r: Option<&ItemType>)
        ensures
            match r {
                Some(item) => self.spec_get(item_id@) == Some(*item),
                None => self.spec_get(item_id@) == None::<ItemType>,
            },
    {
        match assoc_find_index(&self.items, item_id) {
            Some(i) => {
                proof {
                    lemma_assoc_find_at_index(self.items@, item_id@, i as int);
                }
                Some(&self.items[i].1)
            },
            None => {
                proof {
                    lemma_assoc_find_not_present(self.items@, item_id@);
                }
                None
            },
        }
    }

    /// Whether an item with the given id is registered.
    pub fn contains(&self, item_id: &str) -> (r: bool)
        ensures
            r == (self.spec_get(item_id@) is Some),
    {
        match self.get(item_id) {
            Some(_) => true,
            None => false,
        }
    }

    /// Remove and return the item with the given id, if any.
    pub fn remove(&mut self, item_id: &str) -> (r: Option<ItemType>)
        requires
            old(self).wf(),
        ensures
            final(self).wf(),
            r == old(self).spec_get(item_id@),
            final(self).spec_get(item_id@) == None::<ItemType>,
            forall|k: Seq<char>|
                k != item_id@ ==> final(self).spec_get(k) == old(self).spec_get(k),
    {
        match assoc_find_index(&self.items, item_id) {
            Some(i) => {
                proof {
                    lemma_assoc_find_at_index(self.items@, item_id@, i as int);
                    lemma_assoc_remove(self.items@, i as int);
                }
                let entry = self.items.remove(i);
                Some(entry.1)
            },
            None => {
                proof {
                    lemma_assoc_find_not_present(self.items@, item_id@);
                }
                None
            },
        }
    }

    /// All registered item ids, in registration order.
    pub fn item_ids(&self) -> (r: Vec<String>)
        ensures
            r@.len() == self.spec_items().len(),
            forall|i: int| 0 <= i < r@.len() ==> (#[trigger] r@[i]) == self.spec_items()[i].0,
    {
        let n = self.items.len();
        let mut ids: Vec<String> = Vec::new();
        let mut i: usize = 0;
        while i < n
            invariant
                n == self.items@.len(),
                i <= n,
                ids@.len() == i,
                forall|j: int| 0 <= j < i ==> (#[trigger] ids@[j]) == self.items@[j].0,
            decreases n - i,
        {
            ids.push(self.items[i].0.clone());
            i = i + 1;
        }
        ids
    }

    /// How many item types are registered.
    pub fn count(&self) -> (r: usize)
        ensures
            r == self.spec_items().len(),
    {
        self.items.len()
    }

    /// The ids of all registered items that affect the given need.
    pub fn items_satisfying(&self, need: NeedType) -> (r: Vec<String>)
        requires
            self.wf(),
        ensures
            r@ == spec_satisfying_ids(self.spec_items(), need),
    {
        let n = self.items.len();
        let mut found: Vec<String> = Vec::new();
        let mut i: usize = 0;
        while i < n
            invariant
                self.wf(),
                n == self.items@.len(),
                i <= n,
                found@ == spec_satisfying_ids(self.items@.take(i as int), need),
            decreases n - i,
        {
            proof {
                assert(self.items@.take(i + 1).drop_last() =~= self.items@.take(i as int));
                assert(self.items@.take(i + 1).last() == self.items@[i as int]);
            }
            if self.items[i].1.satisfies_need(need) {
                found.push(self.items[i].1.id.clone());
                proof {
                    assert(self.items@[i as int].1.id == self.items@[i as int].0);
                }
            }
            i = i + 1;
        }
        proof {
            assert(self.items@.take(n as int) =~= self.items@);
        }
        found
    }

    /// Create a registry with the default items pre-loaded: water (thirst
    /// -30), food (hunger -25), grass (hunger -15) and rabbit_meat (hunger
    /// -40), all consumable.
    pub fn with_defaults() -> (r: Self)
        ensures
            r.wf(),
            r.spec_items().len() == 4,
            r.spec_get("water"@) matches Some(item) && item.spec_satisfaction(NeedType::Thirst)
                == -30_000 && item.consumable,
            r.spec_get("food"@) matches Some(item) && item.spec_satisfaction(NeedType::Hunger)
                == -25_000 && item.consumable,
            r.spec_get("grass"@) matches Some(item) && item.spec_satisfaction(NeedType::Hunger)
                == -15_000 && item.consumable,
            r.spec_get("rabbit_meat"@) matches Some(item) && item.spec_satisfaction(
                NeedType::Hunger,
            ) == -40_000 && item.consumable,
    {
        let mut registry = ItemRegistry::new();
        proof {
            reveal_strlit("water");
            reveal_strlit("food");
            reveal_strlit("grass");
            reveal_strlit("rabbit_meat");
            assert("water"@.len() == 5 && "food"@.len() == 4 && "grass"@.len() == 5
                && "rabbit_meat"@.len() == 11);
            assert("water"@[0] == 'w' && "grass"@[0] == 'g');
            assert("water"@ != "food"@ && "water"@ != "grass"@ && "water"@ != "rabbit_meat"@);
            assert("food"@ != "grass"@ && "food"@ != "rabbit_meat"@);
            assert("grass"@ != "rabbit_meat"@);
        }
        let water = ItemType::new("water".to_owned(), vec![(NeedType::Thirst, -30_000i64)], true);
        registry.register(water);
        let food = ItemType::new("food".to_owned(), vec![(NeedType::Hunger, -25_000i64)], true);
        registry.register(food);
        let grass = ItemType::new("grass".to_owned(), vec![(NeedType::Hunger, -15_000i64)], true);
        registry.register(grass);
        let rabbit_meat = ItemType::new(
            "rabbit_meat".to_owned(),
            vec![(NeedType::Hunger, -40_000i64)],
            true,
        );
        registry.register(rabbit_meat);
        registry
    }
}

} // verus!

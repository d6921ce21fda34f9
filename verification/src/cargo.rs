//! The cargo hold: how many of each item a vessel carries.
//!
//! The quantities live in a hash map. What the map holds is named by
//! [`table_entries`]; the hold's rules are proved against the contracts of
//! the few map operations declared at the end of this file.

use vstd::prelude::*;

verus! {

/// What identifies an item in contracts: its name and its description.
pub type ItemKey = (Seq<char>, Seq<char>);

/// What a hold contains in contracts: a quantity for each item it has.
pub type Ledger = Map<ItemKey, u64>;

/// A kind of cargo. Two items are the same when both name and description
/// agree.
#[derive(Clone, Debug, Default, PartialEq, Eq, Hash)]
pub struct Item {
    name: String,
    description: String,
}

/// Why a cargo operation did not go through as asked.
#[derive(Clone, Copy, Debug, PartialEq, Eq, Structural)]
pub enum CargoError {
    /// More was to be removed than the hold had: it had `held`, and has none
    /// of the item now.
    InsufficientQuantity { held: u64 },
    /// The new total would not fit in a `u64`; nothing was stored.
    QuantityOverflow,
}

/// The quantities, kept in the hash map that bevy hands on from hashbrown,
/// keyed by name and description. The map's own type takes an allocator
/// that cannot be named from outside hashbrown, so the map is held here,
/// out of the verifier's sight.
#[verifier::external_body]
pub struct ItemTable {
    map: bevy::utils::HashMap<(String, String), u64>,
}

/// The entries of the hash map inside an [`ItemTable`]: the quantity stored
/// under each key, a key being the characters of a name and of a
/// description.
pub uninterp spec fn table_entries(t: ItemTable) -> Map<(Seq<char>, Seq<char>), u64>;

/// The items a vessel carries, each with a quantity of at least one.
pub struct CargoHold {
    table: ItemTable,
}

/// The ledger without any entry.
pub open spec fn empty_ledger() -> Ledger {
    Map::empty()
}

/// How many of `k` the ledger has: zero where it has no entry.
pub open spec fn held(m: Ledger, k: ItemKey) -> nat {
    if m.dom().contains(k) {
        m[k] as nat
    } else {
        0
    }
}

/// No entry of the ledger has quantity zero.
pub open spec fn ledger_wf(m: Ledger) -> bool {
    forall|k: ItemKey| m.dom().contains(k) ==> #[trigger] m[k] > 0
}

/// The ledger after `q` more of `k` came in.
pub open spec fn stored(m: Ledger, k: ItemKey, q: u64) -> Ledger {
    if q == 0 {
        m
    } else {
        m.insert(k, (held(m, k) + q) as u64)
    }
}

/// The ledger after `q` of `k` went out: what is left of `k`, and no entry
/// where nothing is left or more was asked for than there was.
pub open spec fn removed(m: Ledger, k: ItemKey, q: u64) -> Ledger {
    if held(m, k) > q {
        m.insert(k, (held(m, k) - q) as u64)
    } else {
        m.remove(k)
    }
}

impl View for Item {
    type V = ItemKey;

    closed spec fn view(&self) -> ItemKey {
        (self.name@, self.description@)
    }
}

impl Item {
    pub fn new(name: &str, description: &str) -> (item: Item)
        ensures
            item@ == (name@, description@),
    {
        Item { name: name.to_owned(), description: description.to_owned() }
    }

    pub fn name(&self) -> (s: &str)
        ensures
            s@ == self@.0,
    {
        self.name.as_str()
    }

    pub fn description(&self) -> (s: &str)
        ensures
            s@ == self@.1,
    {
        self.description.as_str()
    }
}

impl View for CargoHold {
    type V = Ledger;

    closed spec fn view(&self) -> Ledger {
        table_entries(self.table)
    }
}

impl CargoHold {
    /// Every entry has a quantity of at least one.
    pub open spec fn wf(&self) -> bool {
        ledger_wf(self@)
    }

    /// An empty hold.
    pub fn new() -> (hold: CargoHold)
        ensures
            hold@ == empty_ledger(),
            hold.wf(),
    {
        CargoHold { table: table_new() }
    }

    /// How many of `item` the hold has; zero where it has none.
    pub fn quantity(&self, item: &Item) -> (q: u64)
        ensures
            q == held(self@, item@),
    {
        match table_get(&self.table, item) {
            Some(q) => q,
            None => 0,
        }
    }

    /// Adds `quantity` to the running total of `item`, creating the entry
    /// where there was none. Fails, and stores nothing, where the total
    /// would pass `u64::MAX`.
    pub fn store(&mut self, item: Item, quantity: u64) -> (r: Result<(), CargoError>)
        requires
            old(self).wf(),
        ensures
            final(self).wf(),
            r is Ok <==> held(old(self)@, item@) + quantity <= u64::MAX,
            r is Ok ==> final(self)@ == stored(old(self)@, item@, quantity),
            r is Err ==> r == Err::<(), CargoError>(CargoError::QuantityOverflow) && final(self)@
                == old(self)@,
    {
        let have: u64 = self.quantity(&item);
        match have.checked_add(quantity) {
            Some(total) => {
                if quantity > 0 {
                    table_insert(&mut self.table, item, total);
                }
                Ok(())
            },
            None => Err(CargoError::QuantityOverflow),
        }
    }

    /// Takes `quantity` of `item` out. The entry goes when nothing is left.
    /// Where the hold has less than `quantity`, all of it goes and the call
    /// fails with what the hold had.
    pub fn remove(&mut self, item: Item, quantity: u64) -> (r: Result<(), CargoError>)
        requires
            old(self).wf(),
        ensures
            final(self).wf(),
            final(self)@ == removed(old(self)@, item@, quantity),
            r is Ok <==> quantity <= held(old(self)@, item@),
            r is Err ==> r == Err::<(), CargoError>(
                CargoError::InsufficientQuantity { held: held(old(self)@, item@) as u64 },
            ),
    {
        let have: u64 = self.quantity(&item);
        if have > quantity {
            table_insert(&mut self.table, item, have - quantity);
            Ok(())
        } else {
            table_remove(&mut self.table, &item);
            if have == quantity {
                Ok(())
            } else {
                Err(CargoError::InsufficientQuantity { held: have })
            }
        }
    }

    /// The hold as rows of item and quantity, one row for each entry, in no
    /// particular order.
    pub fn manifest(&self) -> (rows: Vec<(Item, u64)>)
        ensures
            forall|i: int|
                0 <= i < rows@.len() ==> self@.contains_pair(
                    (#[trigger] rows@[i]).0@,
                    rows@[i].1,
                ),
            forall|k: ItemKey|
                self@.dom().contains(k) ==> exists|i: int|
                    0 <= i < rows@.len() && (#[trigger] rows@[i]).0@ == k,
            forall|i: int, j: int|
                0 <= i < j < rows@.len() ==> (#[trigger] rows@[i]).0@ != (#[trigger] rows@[j]).0@,
    {
        table_rows(&self.table)
    }
}

impl Default for CargoHold {
    fn default() -> (hold: CargoHold)
        ensures
            hold@ == empty_ledger(),
            hold.wf(),
    {
        CargoHold::new()
    }
}

/// Storing and removing the same quantity gives the ledger back as it was;
/// so where the item had no entry before, it has none after.
pub proof fn lemma_store_remove_round_trip(m: Ledger, k: ItemKey, q: u64)
    requires
        ledger_wf(m),
        held(m, k) + q <= u64::MAX,
    ensures
        removed(stored(m, k, q), k, q) == m,
        !m.dom().contains(k) ==> !removed(stored(m, k, q), k, q).dom().contains(k),
{
    assert(removed(stored(m, k, q), k, q) =~= m);
}

/// Removing one more than was stored of an item that had no entry asks for
/// more than the hold has, and leaves no entry: the quantity stops at zero.
pub proof fn lemma_remove_more_than_stored(m: Ledger, k: ItemKey, q: u64)
    requires
        ledger_wf(m),
        !m.dom().contains(k),
        q < u64::MAX,
    ensures
        held(stored(m, k, q), k) == q,
        held(stored(m, k, q), k) < q + 1,
        removed(stored(m, k, q), k, (q + 1) as u64) == m,
        held(removed(stored(m, k, q), k, (q + 1) as u64), k) == 0,
{
    assert(removed(stored(m, k, q), k, (q + 1) as u64) =~= m);
}

/// `HashMap::default` of hashbrown, reached as `bevy::utils::HashMap`: a
/// map without entries.
#[verifier::external_body]
fn table_new() -> (t: ItemTable)
    ensures
        table_entries(t) == empty_ledger(),
{
    ItemTable { map: bevy::utils::HashMap::default() }
}

/// `HashMap::get` of hashbrown: the quantity stored under the item's name
/// and description, if the map has that key. Keys are pairs of strings,
/// which are equal when their characters are.
#[verifier::external_body]
fn table_get(t: &ItemTable, item: &Item) -> (q: Option<u64>)
    ensures
        q == (if table_entries(*t).dom().contains(item@) {
            Some(table_entries(*t)[item@])
        } else {
            None
        }),
{
    t.map.get(&(item.name.clone(), item.description.clone())).copied()
}

/// `HashMap::insert` of hashbrown: the key now maps to `quantity`, whether
/// or not it was there before; the other entries stay.
#[verifier::external_body]
fn table_insert(t: &mut ItemTable, item: Item, quantity: u64)
    ensures
        table_entries(*final(t)) == table_entries(*old(t)).insert(item@, quantity),
{
    t.map.insert((item.name, item.description), quantity);
}

/// `HashMap::remove` of hashbrown: the key has no entry afterwards; the
/// other entries stay.
#[verifier::external_body]
fn table_remove(t: &mut ItemTable, item: &Item)
    ensures
        table_entries(*final(t)) == table_entries(*old(t)).remove(item@),
{
    t.map.remove(&(item.name.clone(), item.description.clone()));
}

/// `HashMap::iter` of hashbrown, collected: every entry of the map once, in
/// an order that the map chooses. Nothing is said of that order.
#[verifier::external_body]
fn table_rows(t: &ItemTable) -> (rows: Vec<(Item, u64)>)
    ensures
        forall|i: int|
            0 <= i < rows@.len() ==> table_entries(*t).contains_pair(
                (#[trigger] rows@[i]).0@,
                rows@[i].1,
            ),
        forall|k: ItemKey|
            table_entries(*t).dom().contains(k) ==> exists|i: int|
                0 <= i < rows@.len() && (#[trigger] rows@[i]).0@ == k,
        forall|i: int, j: int|
            0 <= i < j < rows@.len() ==> (#[trigger] rows@[i]).0@ != (#[trigger] rows@[j]).0@,
{
    t.map.iter().map(|(k, v)| (Item { name: k.0.clone(), description: k.1.clone() }, *v)).collect()
}

} // verus!

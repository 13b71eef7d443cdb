use vstd::prelude::*;
use crate::items::{first_empty, has_empty_slot, InventoryItems, Item, StackableItem};
use crate::stats::{Inventory, Money};

verus! {

/// A character's shop: items it buys at a price, and inventory slots it
/// sells from at a price.
#[derive(Clone, Debug)]
pub struct PersonalStore {
    pub buy_items: Vec<Option<(Item, Money)>>,
    pub sell_items: Vec<Option<(usize, Money)>>,
}

/// A store's seller or buyer, as the store rules read it.
#[derive(Clone, Debug)]
pub struct PersonalStoreEntityQuery {
    pub client_entity_id: u64,
    pub items: InventoryItems,
    pub inventory: Inventory,
}

/// A listed entry: its store slot, the item and its price.
pub type StoreListing = (u8, Item, Money);

/// The buy entries of a store from slot `i` on.
pub open spec fn buy_listing(slots: Seq<Option<(Item, Money)>>, n: int) -> Seq<StoreListing>
    decreases n,
{
    if n <= 0 || n > slots.len() {
        Seq::empty()
    } else {
        let rest = buy_listing(slots, n - 1);
        match slots[n - 1] {
            Some((item, price)) => rest.push(((n - 1) as u8, item, price)),
            None => rest,
        }
    }
}

/// The sell entries of the first `n` store slots whose inventory slot
/// holds an item.
pub open spec fn sell_listing(slots: Seq<Option<(usize, Money)>>, inventory: Seq<Option<Item>>, n: int) -> Seq<StoreListing>
    decreases n,
{
    if n <= 0 || n > slots.len() {
        Seq::empty()
    } else {
        let rest = sell_listing(slots, inventory, n - 1);
        match slots[n - 1] {
            Some((slot, price)) => if slot < inventory.len() && inventory[slot as int] is Some {
                rest.push(((n - 1) as u8, inventory[slot as int]->0, price))
            } else {
                rest
            },
            None => rest,
        }
    }
}

/// A sell entry names store slot `k`: its byte is `k`, and that store slot
/// sells, at the entry's price, the seller's inventory slot that holds the
/// entry's item.
pub open spec fn sells_from_store_slot(slots: Seq<Option<(usize, Money)>>, inventory: Seq<Option<Item>>, entry: StoreListing, k: int) -> bool {
    &&& 0 <= k < slots.len()
    &&& entry.0 == k as u8
    &&& match slots[k] {
        Some((s, p)) => p == entry.2 && s < inventory.len() && inventory[s as int] == Some(entry.1),
        None => false,
    }
}

/// A sell entry comes from one of the first `n` store slots.
pub open spec fn sold_from_a_store_slot(slots: Seq<Option<(usize, Money)>>, inventory: Seq<Option<Item>>, entry: StoreListing, n: int) -> bool {
    exists|k: int| 0 <= k < n && #[trigger] sells_from_store_slot(slots, inventory, entry, k)
}

/// A buy entry names store slot `k`: its byte is `k`, and that store slot
/// buys the entry's item at the entry's price.
pub open spec fn buys_at_store_slot(slots: Seq<Option<(Item, Money)>>, entry: StoreListing, k: int) -> bool {
    &&& 0 <= k < slots.len()
    &&& entry.0 == k as u8
    &&& slots[k] == Some((entry.1, entry.2))
}

/// A buy entry comes from one of the first `n` store slots.
pub open spec fn bought_at_a_store_slot(slots: Seq<Option<(Item, Money)>>, entry: StoreListing, n: int) -> bool {
    exists|k: int| 0 <= k < n && #[trigger] buys_at_store_slot(slots, entry, k)
}

/// Store slot `k` sells an item the seller holds.
pub open spec fn sellable(slots: Seq<Option<(usize, Money)>>, inventory: Seq<Option<Item>>, k: int) -> bool {
    &&& 0 <= k < slots.len()
    &&& slots[k] matches Some((s, p)) && s < inventory.len() && inventory[s as int] is Some
}

/// Some entry of a sell list comes from store slot `k`.
pub open spec fn sell_listed(slots: Seq<Option<(usize, Money)>>, inventory: Seq<Option<Item>>, list: Seq<StoreListing>, k: int) -> bool {
    exists|i: int| 0 <= i < list.len() && #[trigger] sells_from_store_slot(slots, inventory, list[i], k)
}

/// Some entry of a buy list comes from store slot `k`.
pub open spec fn buy_listed(slots: Seq<Option<(Item, Money)>>, list: Seq<StoreListing>, k: int) -> bool {
    exists|i: int| 0 <= i < list.len() && #[trigger] buys_at_store_slot(slots, list[i], k)
}

/// Every sell entry of a store carries the index of the store slot it came
/// from (not its place in the list): that slot sells the listed item, held
/// in the seller's inventory, at the listed price. And every store slot
/// that sells an item the seller still holds is listed.
pub proof fn law_sell_entries_name_their_store_slot(slots: Seq<Option<(usize, Money)>>, inventory: Seq<Option<Item>>, n: int)
    requires
        0 <= n <= slots.len(),
    ensures
        forall|i: int| 0 <= i < sell_listing(slots, inventory, n).len() ==>
            #[trigger] sold_from_a_store_slot(slots, inventory, sell_listing(slots, inventory, n)[i], n),
        forall|k: int| 0 <= k < n && #[trigger] sellable(slots, inventory, k) ==>
            sell_listed(slots, inventory, sell_listing(slots, inventory, n), k),
    decreases n,
{
    if n > 0 {
        law_sell_entries_name_their_store_slot(slots, inventory, n - 1);
        let rest = sell_listing(slots, inventory, n - 1);
        let all = sell_listing(slots, inventory, n);
        assert forall|i: int| 0 <= i < all.len() implies #[trigger] sold_from_a_store_slot(slots, inventory, all[i], n) by {
            if i < rest.len() {
                assert(all[i] == rest[i]);
                assert(sold_from_a_store_slot(slots, inventory, rest[i], n - 1));
                let k = choose|k: int| 0 <= k < n - 1 && #[trigger] sells_from_store_slot(slots, inventory, rest[i], k);
                assert(sells_from_store_slot(slots, inventory, all[i], k));
            } else {
                assert(sells_from_store_slot(slots, inventory, all[i], n - 1));
            }
        }
        assert forall|k: int| 0 <= k < n && #[trigger] sellable(slots, inventory, k) implies
            sell_listed(slots, inventory, all, k) by {
            if k < n - 1 {
                assert(sell_listed(slots, inventory, rest, k));
                let i = choose|i: int| 0 <= i < rest.len() && #[trigger] sells_from_store_slot(slots, inventory, rest[i], k);
                assert(all[i] == rest[i]);
                assert(sells_from_store_slot(slots, inventory, all[i], k));
            } else {
                assert(sells_from_store_slot(slots, inventory, all[rest.len() as int], k));
            }
        }
    }
}

/// Every buy entry of a store carries the index of the store slot it came
/// from: that slot buys the listed item at the listed price. And every
/// store slot that buys something is listed.
pub proof fn law_buy_entries_name_their_store_slot(slots: Seq<Option<(Item, Money)>>, n: int)
    requires
        0 <= n <= slots.len(),
    ensures
        forall|i: int| 0 <= i < buy_listing(slots, n).len() ==>
            #[trigger] bought_at_a_store_slot(slots, buy_listing(slots, n)[i], n),
        forall|k: int| 0 <= k < n && (#[trigger] slots[k]) is Some ==> buy_listed(slots, buy_listing(slots, n), k),
    decreases n,
{
    if n > 0 {
        law_buy_entries_name_their_store_slot(slots, n - 1);
        let rest = buy_listing(slots, n - 1);
        let all = buy_listing(slots, n);
        assert forall|i: int| 0 <= i < all.len() implies #[trigger] bought_at_a_store_slot(slots, all[i], n) by {
            if i < rest.len() {
                assert(all[i] == rest[i]);
                assert(bought_at_a_store_slot(slots, rest[i], n - 1));
                let k = choose|k: int| 0 <= k < n - 1 && #[trigger] buys_at_store_slot(slots, rest[i], k);
                assert(buys_at_store_slot(slots, all[i], k));
            } else {
                assert(buys_at_store_slot(slots, all[i], n - 1));
            }
        }
        assert forall|k: int| 0 <= k < n && (#[trigger] slots[k]) is Some implies buy_listed(slots, all, k) by {
            if k < n - 1 {
                assert(buy_listed(slots, rest, k));
                let i = choose|i: int| 0 <= i < rest.len() && #[trigger] buys_at_store_slot(slots, rest[i], k);
                assert(all[i] == rest[i]);
                assert(buys_at_store_slot(slots, all[i], k));
            } else {
                assert(buys_at_store_slot(slots, all[rest.len() as int], k));
            }
        }
    }
}

/// The items a store lists to a buyer: what it buys, and what it sells
/// that the seller still holds, each with its store slot (as a byte) and
/// price.
pub fn personal_store_list_items(store: &PersonalStore, seller: &InventoryItems) -> (lists: (Vec<StoreListing>, Vec<StoreListing>))
    ensures
        lists.0@ == buy_listing(store.buy_items@, store.buy_items@.len() as int),
        lists.1@ == sell_listing(store.sell_items@, seller.slots@, store.sell_items@.len() as int),
        forall|i: int| 0 <= i < lists.0@.len() ==>
            #[trigger] bought_at_a_store_slot(store.buy_items@, lists.0@[i], store.buy_items@.len() as int),
        forall|i: int| 0 <= i < lists.1@.len() ==>
            #[trigger] sold_from_a_store_slot(store.sell_items@, seller.slots@, lists.1@[i], store.sell_items@.len() as int),
        forall|k: int| 0 <= k < store.buy_items@.len() && (#[trigger] store.buy_items@[k]) is Some ==>
            buy_listed(store.buy_items@, lists.0@, k),
        forall|k: int| #[trigger] sellable(store.sell_items@, seller.slots@, k) ==>
            sell_listed(store.sell_items@, seller.slots@, lists.1@, k),
{
    let mut buy_items: Vec<StoreListing> = Vec::new();
    let mut i: usize = 0;
    while i < store.buy_items.len()
        invariant
            i <= store.buy_items.len(),
            buy_items@ == buy_listing(store.buy_items@, i as int),
        decreases store.buy_items.len() - i,
    {
        match store.buy_items[i] {
            Some((item, price)) => buy_items.push((i as u8, item, price)),
            None => {},
        }
        i += 1;
    }
    let mut sell_items: Vec<StoreListing> = Vec::new();
    let mut j: usize = 0;
    while j < store.sell_items.len()
        invariant
            j <= store.sell_items.len(),
            sell_items@ == sell_listing(store.sell_items@, seller.slots@, j as int),
        decreases store.sell_items.len() - j,
    {
        match store.sell_items[j] {
            Some((slot, price)) => {
                if slot < seller.slots.len() {
                    match seller.slots[slot] {
                        Some(item) => sell_items.push((j as u8, item, price)),
                        None => {},
                    }
                }
            },
            None => {},
        }
        j += 1;
    }
    proof {
        law_buy_entries_name_their_store_slot(store.buy_items@, store.buy_items@.len() as int);
        law_sell_entries_name_their_store_slot(store.sell_items@, seller.slots@, store.sell_items@.len() as int);
    }
    (buy_items, sell_items)
}

/// How many items an item stands for: one piece of equipment, or the size
/// of a stack.
pub open spec fn quantity_of(item: Item) -> u32 {
    match item {
        Item::Equipment(_) => 1,
        Item::Stackable(s) => s.quantity,
    }
}

/// The same item as another: the same kind and number.
pub open spec fn same_item(a: Item, b: Item) -> bool {
    match (a, b) {
        (Item::Equipment(x), Item::Equipment(y)) => x.item == y.item,
        (Item::Stackable(x), Item::Stackable(y)) => x.item == y.item,
        _ => false,
    }
}

/// Taking `quantity` from a slot: a whole piece of equipment, or part or
/// all of a stack; what is left stays in the slot. `None` when the slot
/// does not hold that many.
pub open spec fn take_quantity(slot: Option<Item>, quantity: u32) -> Option<(Item, Option<Item>)> {
    match slot {
        None => None,
        Some(Item::Equipment(e)) => if quantity >= 1 { Some((Item::Equipment(e), None)) } else { None },
        Some(Item::Stackable(s)) => if quantity == 0 || quantity > s.quantity {
            None
        } else if quantity == s.quantity {
            Some((Item::Stackable(s), None))
        } else {
            Some((Item::Stackable(StackableItem { quantity, ..s }),
                Some(Item::Stackable(StackableItem { quantity: (s.quantity - quantity) as u32, ..s }))))
        },
    }
}

pub(crate) fn item_quantity(item: &Item) -> (q: u32)
    ensures
        q == quantity_of(*item),
{
    match item {
        Item::Equipment(_) => 1,
        Item::Stackable(s) => s.quantity,
    }
}

pub(crate) fn is_same_item(a: &Item, b: &Item) -> (same: bool)
    ensures
        same == same_item(*a, *b),
{
    match (a, b) {
        (Item::Equipment(x), Item::Equipment(y)) => x.item == y.item,
        (Item::Stackable(x), Item::Stackable(y)) => x.item == y.item,
        _ => false,
    }
}

pub(crate) fn try_take_quantity(slot: Option<Item>, quantity: u32) -> (result: Option<(Item, Option<Item>)>)
    ensures
        result == take_quantity(slot, quantity),
{
    match slot {
        None => None,
        Some(Item::Equipment(e)) => if quantity >= 1 { Some((Item::Equipment(e), None)) } else { None },
        Some(Item::Stackable(s)) => {
            if quantity == 0 || quantity > s.quantity {
                None
            } else if quantity == s.quantity {
                Some((Item::Stackable(s), None))
            } else {
                Some((Item::Stackable(StackableItem { quantity, ..s }),
                    Some(Item::Stackable(StackableItem { quantity: s.quantity - quantity, ..s }))))
            }
        },
    }
}

/// Why a purchase failed.
#[derive(Clone, Copy, Debug, PartialEq, Eq, Structural)]
pub enum BuyError {
    InvalidStoreSlotIndex,
    ItemSoldOut,
    NotEnoughMoney,
    InventoryFull,
}

/// The price of buying `quantity` at a unit price.
pub open spec fn total_price(price: Money, quantity: u32) -> int {
    price.0 * quantity
}

/// Buying from a personal store. The store slot must sell from an
/// inventory slot holding the same item as the one asked for, the buyer
/// must afford the unit price times the quantity, and the slot must hold
/// that many. The items go to the buyer's first empty slot and the money
/// to the seller; a store slot left empty stops selling. When the buyer
/// has no room, nothing changes. Returns the buyer's and seller's slots.
pub fn personal_store_buy_item(
    store: &mut PersonalStore,
    seller_items: &mut InventoryItems,
    seller: &mut Inventory,
    buyer_items: &mut InventoryItems,
    buyer: &mut Inventory,
    store_slot_index: usize,
    buy_item: Item,
) -> (result: Result<(usize, usize), BuyError>)
    requires
        forall|i: int| 0 <= i < old(store).sell_items@.len() && old(store).sell_items@[i] is Some
            ==> i64::MIN <= total_price((old(store).sell_items@[i]->0).1, quantity_of(buy_item)) <= i64::MAX
                && old(buyer).money.0 - total_price((old(store).sell_items@[i]->0).1, quantity_of(buy_item)) <= i64::MAX,
    ensures
        ({
            let sell = old(store).sell_items@;
            if store_slot_index >= sell.len() || sell[store_slot_index as int] is None {
                result == Err::<(usize, usize), BuyError>(BuyError::InvalidStoreSlotIndex)
            } else {
                let (slot, price) = sell[store_slot_index as int]->0;
                let cost = total_price(price, quantity_of(buy_item));
                let held = if slot < old(seller_items).slots@.len() { Some(old(seller_items).slots@[slot as int]) } else { None };
                match held {
                    None => result == Err::<(usize, usize), BuyError>(BuyError::InvalidStoreSlotIndex),
                    Some(content) => if !(content matches Some(x) && same_item(x, buy_item)) {
                        result == Err::<(usize, usize), BuyError>(BuyError::ItemSoldOut)
                    } else if old(buyer).money.0 < cost {
                        result == Err::<(usize, usize), BuyError>(BuyError::NotEnoughMoney)
                    } else {
                        match take_quantity(content, quantity_of(buy_item)) {
                            None => result == Err::<(usize, usize), BuyError>(BuyError::ItemSoldOut),
                            Some((taken, left)) => if has_empty_slot(old(buyer_items).slots@) {
                                exists|k: int| first_empty(old(buyer_items).slots@, k) && {
                                    &&& result == Ok::<(usize, usize), BuyError>((k as usize, slot))
                                    &&& final(buyer_items).slots@ == old(buyer_items).slots@.update(k, Some(taken))
                                    &&& final(seller_items).slots@ == old(seller_items).slots@.update(slot as int, left)
                                    &&& final(buyer).money.0 == old(buyer).money.0 - cost
                                    &&& final(seller).money.0 == (if i64::MIN <= old(seller).money.0 + cost <= i64::MAX {
                                        old(seller).money.0 + cost } else { old(seller).money.0 as int })
                                    &&& final(store).sell_items@ == (if left is None {
                                        sell.update(store_slot_index as int, None) } else { sell })
                                }
                            } else {
                                result == Err::<(usize, usize), BuyError>(BuyError::InventoryFull)
                            },
                        }
                    },
                }
            }
        }),
        result is Err ==> {
            &&& final(store).sell_items@ == old(store).sell_items@
            &&& final(seller_items).slots@ == old(seller_items).slots@
            &&& final(buyer_items).slots@ == old(buyer_items).slots@
            &&& *final(buyer) == *old(buyer)
            &&& *final(seller) == *old(seller)
        },
        final(store).buy_items@ == old(store).buy_items@,
{
    if store_slot_index >= store.sell_items.len() {
        return Err(BuyError::InvalidStoreSlotIndex);
    }
    let (slot, price) = match store.sell_items[store_slot_index] {
        Some(entry) => entry,
        None => return Err(BuyError::InvalidStoreSlotIndex),
    };
    if slot >= seller_items.slots.len() {
        return Err(BuyError::InvalidStoreSlotIndex);
    }
    let content = seller_items.slots[slot];
    let matches = match &content {
        Some(x) => is_same_item(x, &buy_item),
        None => false,
    };
    if !matches {
        return Err(BuyError::ItemSoldOut);
    }
    let quantity = item_quantity(&buy_item);
    let cost = Money(price.0 * quantity as i64);
    if buyer.money.0 < cost.0 {
        return Err(BuyError::NotEnoughMoney);
    }
    let (taken, left) = match try_take_quantity(content, quantity) {
        Some(t) => t,
        None => return Err(BuyError::ItemSoldOut),
    };
    match buyer_items.try_add_item(taken) {
        Ok(k) => {
            seller_items.slots.set(slot, left);
            buyer.money = Money(buyer.money.0 - cost.0);
            if left.is_none() {
                store.sell_items.set(store_slot_index, None);
            }
            let _ = seller.try_add_money(cost);
            Ok((k, slot))
        },
        Err(_) => Err(BuyError::InventoryFull),
    }
}

/// Why a purchase from an NPC store failed.
#[derive(Clone, Copy, Debug, PartialEq, Eq, Structural)]
pub enum NpcStoreTransactionError {
    NpcNotFound,
    NotSameUnion,
    NpcTooFarAway,
    NotEnoughMoney,
}

/// What the world shows of the store NPC of a transaction: whether its
/// store belongs to a union, whether it is in the buyer's zone, and whether
/// it is within reach (the distance measured by the caller).
#[derive(Clone, Copy, Debug, PartialEq, Eq, Structural)]
pub struct StoreNpcFacts {
    pub union_store: bool,
    pub same_zone: bool,
    pub within_reach: bool,
}

/// The checks before an NPC store transaction: the NPC and its data must be
/// found (`None` otherwise); union stores are refused; the NPC must be in
/// the buyer's zone and within reach.
pub fn npc_store_precheck(npc: Option<StoreNpcFacts>) -> (result: Result<(), NpcStoreTransactionError>)
    ensures
        result == match npc {
            None => Err(NpcStoreTransactionError::NpcNotFound),
            Some(f) => if f.union_store {
                Err(NpcStoreTransactionError::NotSameUnion)
            } else if !f.same_zone || !f.within_reach {
                Err(NpcStoreTransactionError::NpcTooFarAway)
            } else {
                Ok(())
            },
        },
{
    match npc {
        None => Err(NpcStoreTransactionError::NpcNotFound),
        Some(f) => if f.union_store {
            Err(NpcStoreTransactionError::NotSameUnion)
        } else if !f.same_zone || !f.within_reach {
            Err(NpcStoreTransactionError::NpcTooFarAway)
        } else {
            Ok(())
        },
    }
}

/// An item bought from an NPC: the item, its unit price and how many.
#[derive(Clone, Copy, Debug, PartialEq, Eq, Structural)]
pub struct NpcPurchase {
    pub item: Item,
    pub unit_price: i64,
    pub quantity: i64,
}

/// Putting items one after another into the first empty slot: the slots
/// after, and the slot each went to; `None` when one finds no room.
pub open spec fn add_all(slots: Seq<Option<Item>>, items: Seq<Item>) -> Option<(Seq<Option<Item>>, Seq<usize>)>
    decreases items.len(),
{
    if items.len() == 0 {
        Some((slots, Seq::empty()))
    } else {
        match add_all(slots, items.drop_last()) {
            None => None,
            Some((s, placed)) => if has_empty_slot(s) {
                let k = choose|k: int| first_empty(s, k);
                Some((s.update(k, Some(items.last())), placed.push(k as usize)))
            } else {
                None
            },
        }
    }
}

/// The cost of the first `n` purchases.
pub open spec fn purchases_cost(p: Seq<NpcPurchase>, n: int) -> int
    decreases n,
{
    if n <= 0 || n > p.len() { 0 } else { purchases_cost(p, n - 1) + p[n - 1].unit_price * p[n - 1].quantity }
}

pub open spec fn purchased_items(p: Seq<NpcPurchase>) -> Seq<Item> {
    p.map_values(|x: NpcPurchase| x.item)
}

proof fn lemma_first_empty_choose(slots: Seq<Option<Item>>, k: int)
    requires
        first_empty(slots, k),
    ensures
        (choose|j: int| first_empty(slots, j)) == k,
{
    let j = choose|j: int| first_empty(slots, j);
    assert(first_empty(slots, j));
}

/// Buying from an NPC store: every item goes to the first empty slot in
/// turn and the total price is paid; if an item finds no room or the money
/// does not cover the total, nothing changes. Returns the slots filled.
pub fn npc_store_buy(items: &mut InventoryItems, inventory: &mut Inventory, purchases: &Vec<NpcPurchase>)
    -> (result: Result<Vec<usize>, NpcStoreTransactionError>)
    requires
        forall|i: int| 0 <= i < purchases@.len() ==> purchases@[i].unit_price >= 0 && purchases@[i].quantity >= 0,
        forall|n: int| 0 <= n <= purchases@.len() ==> purchases_cost(purchases@, n) <= i64::MAX,
    ensures
        match add_all(old(items).slots@, purchased_items(purchases@)) {
            None => result == Err::<Vec<usize>, NpcStoreTransactionError>(NpcStoreTransactionError::NpcNotFound)
                && final(items).slots@ == old(items).slots@ && *final(inventory) == *old(inventory),
            Some((slots, placed)) => if old(inventory).money.0 < purchases_cost(purchases@, purchases@.len() as int) {
                result == Err::<Vec<usize>, NpcStoreTransactionError>(NpcStoreTransactionError::NotEnoughMoney)
                    && final(items).slots@ == old(items).slots@ && *final(inventory) == *old(inventory)
            } else {
                &&& result matches Ok(r) && r@ == placed
                &&& final(items).slots@ == slots
                &&& final(inventory).money.0 == old(inventory).money.0 - purchases_cost(purchases@, purchases@.len() as int)
            },
        },
{
    let mut trial = InventoryItems { slots: items.slots.clone() };
    let mut placed: Vec<usize> = Vec::new();
    let mut total: i64 = 0;
    let mut i: usize = 0;
    let ghost all = purchased_items(purchases@);
    assert(trial.slots@ =~= items.slots@);
    while i < purchases.len()
        invariant
            i <= purchases.len(),
            all == purchased_items(purchases@),
            forall|j: int| 0 <= j < purchases@.len() ==> purchases@[j].unit_price >= 0 && purchases@[j].quantity >= 0,
            forall|n: int| 0 <= n <= purchases@.len() ==> purchases_cost(purchases@, n) <= i64::MAX,
            add_all(items.slots@, all.take(i as int)) == Some((trial.slots@, placed@)),
            total == purchases_cost(purchases@, i as int),
            0 <= total,
        decreases purchases.len() - i,
    {
        let p = purchases[i];
        assert(all.take(i as int + 1).drop_last() =~= all.take(i as int));
        assert(all.take(i as int + 1).last() == p.item);
        let ghost before = trial.slots@;
        match trial.try_add_item(p.item) {
            Ok(k) => {
                proof { lemma_first_empty_choose(before, k as int); }
                placed.push(k);
            },
            Err(_) => {
                proof { lemma_add_all_fails_later(items.slots@, all, i as int + 1); }
                return Err(NpcStoreTransactionError::NpcNotFound);
            },
        }
        assert(p.unit_price * p.quantity >= 0) by (nonlinear_arith)
            requires p.unit_price >= 0, p.quantity >= 0;
        assert(purchases_cost(purchases@, i as int + 1) == total + p.unit_price * p.quantity);
        assert(purchases_cost(purchases@, i as int + 1) <= i64::MAX);
        total = total + p.unit_price * p.quantity;
        i += 1;
    }
    assert(all.take(i as int) =~= all);
    if inventory.money.0 < total {
        return Err(NpcStoreTransactionError::NotEnoughMoney);
    }
    inventory.money.0 = inventory.money.0 - total;
    items.slots = trial.slots;
    Ok(placed)
}

/// Once an item finds no room, adding more fails too.
proof fn lemma_add_all_fails_later(slots: Seq<Option<Item>>, items: Seq<Item>, n: int)
    requires
        0 < n <= items.len(),
        add_all(slots, items.take(n)) is None,
    ensures
        add_all(slots, items) is None,
    decreases items.len() - n,
{
    if n < items.len() {
        assert(items.take(n + 1).drop_last() =~= items.take(n));
        lemma_add_all_fails_later(slots, items, n + 1);
    } else {
        assert(items.take(n) =~= items);
    }
}

/// The quantity a slot holds; zero when empty.
pub open spec fn slot_quantity(slot: Option<Item>) -> int {
    match slot {
        Some(item) => quantity_of(item) as int,
        None => 0,
    }
}

/// Taking items out of a slot (for a sale, a deposit or a withdrawal)
/// neither makes nor loses any: what is taken is the quantity asked for, of
/// the item the slot held, and together with what stays it is what the slot
/// held.
pub proof fn law_take_quantity_conserves(slot: Option<Item>, quantity: u32)
    requires
        take_quantity(slot, quantity) is Some,
    ensures
        ({
            let (taken, left) = take_quantity(slot, quantity)->0;
            &&& quantity_of(taken) == quantity || (taken is Equipment && quantity_of(taken) == 1)
            &&& same_item(taken, slot->0)
            &&& quantity_of(taken) + slot_quantity(left) == slot_quantity(slot)
            &&& left matches Some(l) ==> same_item(l, slot->0)
        }),
{
}

} // verus!

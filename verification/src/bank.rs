use vstd::prelude::*;
use crate::items::{first_empty, has_empty_slot, InventoryItems, Item};
use crate::store::{is_same_item, item_quantity, quantity_of, same_item, take_quantity, try_take_quantity};

verus! {

/// A character's bank, and whether its content was sent to the client.
#[derive(Clone, Debug)]
pub struct Bank {
    pub items: InventoryItems,
    pub sent_to_client: bool,
}

/// The occupied slots of the first `n` slots, each with its index as a
/// byte.
pub open spec fn occupied_slots(slots: Seq<Option<Item>>, n: int) -> Seq<(u8, Item)>
    decreases n,
{
    if n <= 0 || n > slots.len() {
        Seq::empty()
    } else {
        let rest = occupied_slots(slots, n - 1);
        match slots[n - 1] {
            Some(item) => rest.push(((n - 1) as u8, item)),
            None => rest,
        }
    }
}

impl Bank {
    /// Opening the bank: the first time its items are sent (the occupied
    /// slots), later only the opening is announced (`None`).
    pub fn open(&mut self) -> (items: Option<Vec<(u8, Item)>>)
        ensures
            final(self).items.slots@ == old(self).items.slots@,
            final(self).sent_to_client,
            old(self).sent_to_client ==> items is None,
            !old(self).sent_to_client ==> (items matches Some(list)
                && list@ == occupied_slots(old(self).items.slots@, old(self).items.slots@.len() as int)),
    {
        if self.sent_to_client {
            return None;
        }
        let mut list: Vec<(u8, Item)> = Vec::new();
        let mut i: usize = 0;
        while i < self.items.slots.len()
            invariant
                i <= self.items.slots.len(),
                list@ == occupied_slots(self.items.slots@, i as int),
            decreases self.items.slots.len() - i,
        {
            match self.items.slots[i] {
                Some(item) => list.push((i as u8, item)),
                None => {},
            }
            i += 1;
        }
        self.sent_to_client = true;
        Some(list)
    }
}

/// Moving `item` (its quantity) out of slot `index` of one store of slots
/// into the first empty slot of another: only when that slot holds the
/// same item in that quantity and the other has room. Returns the slot it
/// went to; otherwise nothing changes.
pub fn transfer_item(from: &mut InventoryItems, index: usize, to: &mut InventoryItems, item: Item) -> (moved: Option<usize>)
    ensures
        ({
            let content = if index < old(from).slots@.len() { old(from).slots@[index as int] } else { None };
            let taken = take_quantity(content, quantity_of(item));
            if content matches Some(x) && same_item(x, item) && taken is Some && has_empty_slot(old(to).slots@) {
                exists|k: int| first_empty(old(to).slots@, k) && {
                    &&& moved == Some(k as usize)
                    &&& final(to).slots@ == old(to).slots@.update(k, Some((taken->0).0))
                    &&& final(from).slots@ == old(from).slots@.update(index as int, (taken->0).1)
                }
            } else {
                moved is None && final(from).slots@ == old(from).slots@ && final(to).slots@ == old(to).slots@
            }
        }),
{
    if index >= from.slots.len() {
        return None;
    }
    let content = from.slots[index];
    let same = match &content {
        Some(x) => is_same_item(x, &item),
        None => false,
    };
    if !same {
        return None;
    }
    let (taken, left) = match try_take_quantity(content, item_quantity(&item)) {
        Some(t) => t,
        None => return None,
    };
    match to.try_add_item(taken) {
        Ok(k) => {
            from.slots.set(index, left);
            Some(k)
        },
        Err(_) => None,
    }
}

/// Depositing an inventory item into the bank.
pub fn bank_deposit_item(bank: &mut Bank, inventory: &mut InventoryItems, item_slot: usize, item: Item) -> (bank_slot: Option<usize>)
    ensures
        final(bank).sent_to_client == old(bank).sent_to_client,
        ({
            let content = if item_slot < old(inventory).slots@.len() { old(inventory).slots@[item_slot as int] } else { None };
            let taken = take_quantity(content, quantity_of(item));
            if content matches Some(x) && same_item(x, item) && taken is Some && has_empty_slot(old(bank).items.slots@) {
                exists|k: int| first_empty(old(bank).items.slots@, k) && {
                    &&& bank_slot == Some(k as usize)
                    &&& final(bank).items.slots@ == old(bank).items.slots@.update(k, Some((taken->0).0))
                    &&& final(inventory).slots@ == old(inventory).slots@.update(item_slot as int, (taken->0).1)
                }
            } else {
                bank_slot is None && final(inventory).slots@ == old(inventory).slots@
                    && final(bank).items.slots@ == old(bank).items.slots@
            }
        }),
{
    transfer_item(inventory, item_slot, &mut bank.items, item)
}

/// Withdrawing a bank item into the inventory.
pub fn bank_withdraw_item(bank: &mut Bank, inventory: &mut InventoryItems, bank_slot: usize, item: Item) -> (item_slot: Option<usize>)
    ensures
        final(bank).sent_to_client == old(bank).sent_to_client,
        ({
            let content = if bank_slot < old(bank).items.slots@.len() { old(bank).items.slots@[bank_slot as int] } else { None };
            let taken = take_quantity(content, quantity_of(item));
            if content matches Some(x) && same_item(x, item) && taken is Some && has_empty_slot(old(inventory).slots@) {
                exists|k: int| first_empty(old(inventory).slots@, k) && {
                    &&& item_slot == Some(k as usize)
                    &&& final(inventory).slots@ == old(inventory).slots@.update(k, Some((taken->0).0))
                    &&& final(bank).items.slots@ == old(bank).items.slots@.update(bank_slot as int, (taken->0).1)
                }
            } else {
                item_slot is None && final(inventory).slots@ == old(inventory).slots@
                    && final(bank).items.slots@ == old(bank).items.slots@
            }
        }),
{
    transfer_item(&mut bank.items, bank_slot, inventory, item)
}

} // verus!

use vstd::prelude::*;
use crate::items::{first_empty, has_empty_slot, InventoryItems, Item};
use crate::party::{members_view, PartyMember, PartyMemberModel};
use crate::stats::{Inventory, Money};

verus! {

/// What lies on the ground: an item or money.
#[derive(Clone, Copy, Debug, PartialEq, Eq, Structural)]
pub enum DroppedItem {
    Item(Item),
    Money(Money),
}

/// Who may pick up a drop: the picker's party shares it by its rules, the
/// picker takes it for itself, or it is not the picker's to take.
#[derive(Clone, Copy, Debug, PartialEq, Eq, Structural)]
pub enum PickupRoute {
    ByParty,
    ForSelf,
    Denied,
}

/// Who may take a drop. A drop owned by the picker's party (when that
/// party exists) goes by the party's rules; otherwise a drop with no owner,
/// or owned by the picker, is the picker's; any other is denied.
pub fn pickup_route(picker: u64, picker_party: Option<u64>, party_exists: bool, drop_party_owner: Option<u64>, drop_owner: Option<u64>)
    -> (route: PickupRoute)
    ensures
        route == if picker_party is Some && picker_party == drop_party_owner && party_exists {
            PickupRoute::ByParty
        } else if drop_owner is None || drop_owner == Some(picker) {
            PickupRoute::ForSelf
        } else {
            PickupRoute::Denied
        },
{
    if picker_party.is_some() && picker_party == drop_party_owner && party_exists {
        PickupRoute::ByParty
    } else if drop_owner.is_none() || drop_owner == Some(picker) {
        PickupRoute::ForSelf
    } else {
        PickupRoute::Denied
    }
}

/// Integer division rounding toward zero, as Rust divides.
pub open spec fn trunc_div(a: int, b: int) -> int {
    if a >= 0 { a / b } else { -((-a) / b) }
}

/// How much money each online member gets when a party splits money
/// evenly: the amount divided by the number online.
pub fn party_money_share(money: Money, online_members: i64) -> (share: Money)
    requires
        online_members > 0,
    ensures
        share.0 == trunc_div(money.0 as int, online_members as int),
{
    let q: i64 = if money.0 >= 0 {
        money.0 / online_members
    } else {
        let magnitude: u64 = if money.0 == i64::MIN { 0x8000_0000_0000_0000u64 } else { (-money.0) as u64 };
        let m: u64 = magnitude / (online_members as u64);
        assert(m <= 0x8000_0000_0000_0000u64) by (nonlinear_arith)
            requires m == magnitude / (online_members as u64), magnitude <= 0x8000_0000_0000_0000u64, online_members > 0;
        if m == 0x8000_0000_0000_0000u64 { i64::MIN } else { -(m as i64) }
    };
    Money(q)
}

/// Hands each online member's share to their inventory, in order: an
/// inventory takes it when the sum stays within range, and is left as it
/// was otherwise. Returns which inventories took it.
pub fn distribute_party_money(inventories: &mut Vec<Inventory>, share: Money) -> (took: Vec<bool>)
    ensures
        final(inventories)@.len() == old(inventories)@.len(),
        took@.len() == old(inventories)@.len(),
        forall|i: int| 0 <= i < old(inventories)@.len() ==> {
            let before = old(inventories)@[i].money.0;
            if i64::MIN <= before + share.0 <= i64::MAX {
                #[trigger] took@[i] && final(inventories)@[i].money.0 == before + share.0
            } else {
                !took@[i] && final(inventories)@[i] == old(inventories)@[i]
            }
        },
{
    let mut took: Vec<bool> = Vec::new();
    let mut i: usize = 0;
    while i < inventories.len()
        invariant
            i <= inventories.len(),
            inventories@.len() == old(inventories)@.len(),
            took@.len() == i,
            forall|j: int| i <= j < inventories@.len() ==> inventories@[j] == old(inventories)@[j],
            forall|j: int| 0 <= j < i ==> {
                let before = old(inventories)@[j].money.0;
                if i64::MIN <= before + share.0 <= i64::MAX {
                    #[trigger] took@[j] && inventories@[j].money.0 == before + share.0
                } else {
                    !took@[j] && inventories@[j] == old(inventories)@[j]
                }
            },
        decreases inventories.len() - i,
    {
        let mut inventory = inventories[i];
        let ghost before = inventory;
        let ghost took0 = took@;
        let ghost inv0 = inventories@;
        let ok = inventory.try_add_money(share).is_ok();
        inventories.set(i, inventory);
        took.push(ok);
        assert(took@[i as int] == ok);
        assert(inventories@[i as int] == inventory);
        assert(old(inventories)@[i as int] == before);
        assert(i64::MIN <= before.money.0 + share.0 <= i64::MAX ==> ok && inventory.money.0 == before.money.0 + share.0);
        assert(!(i64::MIN <= before.money.0 + share.0 <= i64::MAX) ==> !ok && inventory == before);
        assert forall|j: int| 0 <= j < i implies took@[j] == took0[j] && inventories@[j] == inv0[j] by {}
        i += 1;
    }
    took
}

/// How many members of a party are online.
pub open spec fn online_count(members: Seq<PartyMemberModel>) -> int
    decreases members.len(),
{
    if members.len() == 0 {
        0
    } else {
        online_count(members.drop_last()) + if members.last() is Online { 1int } else { 0 }
    }
}

pub fn count_online_members(members: &Vec<PartyMember>) -> (count: i64)
    requires
        members@.len() <= i64::MAX,
    ensures
        count == online_count(members_view(members@)),
{
    let ghost m = members_view(members@);
    let mut count: i64 = 0;
    let mut i: usize = 0;
    while i < members.len()
        invariant
            i <= members.len(),
            members@.len() <= i64::MAX,
            m == members_view(members@),
            count == online_count(m.take(i as int)),
            count <= i,
        decreases members.len() - i,
    {
        assert(m.take(i as int + 1).drop_last() =~= m.take(i as int));
        match &members[i] {
            PartyMember::Online(_) => { count += 1; },
            PartyMember::Offline(_, _) => {},
        }
        i += 1;
    }
    assert(m.take(i as int) =~= m);
    count
}

/// The member at `(order + d) % len` is the next online one after
/// `order`, `d` steps on.
pub open spec fn next_online(members: Seq<PartyMemberModel>, order: int, d: int) -> bool {
    let n = members.len() as int;
    &&& 1 <= d <= n
    &&& members[(order + d) % n] is Online
    &&& forall|j: int| 1 <= j < d ==> !(#[trigger] members[(order + j) % n] is Online)
}

/// The index of the next online member after the one at `order`, going
/// round the party.
fn next_online_index(members: &Vec<PartyMember>, order: usize) -> (k: usize)
    requires
        members@.len() > 0,
        exists|k: int| 0 <= k < members@.len() && members_view(members@)[k] is Online,
    ensures
        k < members@.len(),
        members_view(members@)[k as int] is Online,
        exists|d: int| next_online(members_view(members@), order as int, d)
            && k as int == (order as int + d) % (members@.len() as int),
{
    let ghost m = members_view(members@);
    let ghost start = order as int;
    let n = members.len();
    let mut current: usize = ((order % n) + 1) % n;
    assert(current as int == (start + 1) % (n as int)) by (nonlinear_arith)
        requires current == ((start % (n as int)) + 1) % (n as int), n > 0;
    for j in 0..n
        invariant
            n == members@.len(),
            n > 0,
            m == members_view(members@),
            start == order as int,
            current < n,
            current as int == (start + j + 1) % (n as int),
            forall|i: int| 1 <= i < j + 1 ==> !(#[trigger] m[(start + i) % (n as int)] is Online),
            exists|k: int| 0 <= k < n && m[k] is Online,
    {
        match &members[current] {
            PartyMember::Online(_) => {
                assert(next_online(m, start, j as int + 1));
                return current;
            },
            PartyMember::Offline(_, _) => {},
        }
        proof {
            let next: int = (current as int + 1) % (n as int);
            assert(next == (start + j + 2) % (n as int)) by (nonlinear_arith)
                requires current as int == (start + j + 1) % (n as int), next == (current as int + 1) % (n as int), n > 0;
        }
        current = (current + 1) % n;
    }
    proof {
        // every position was visited and none is online
        let k = choose|k: int| 0 <= k < n && m[k] is Online;
        let j = if k - start % (n as int) > 0 { k - start % (n as int) } else { k - start % (n as int) + n };
        assert((start + j) % (n as int) == k) by (nonlinear_arith)
            requires j == (if k - start % (n as int) > 0 { k - start % (n as int) } else { k - start % (n as int) + n }),
                0 <= k < n, n > 0, start >= 0;
        assert(1 <= j <= n);
        assert(!(m[(start + j) % (n as int)] is Online));
    }
    0
}

/// Taking turns: the next online member after the one at `order`, going
/// round the party; `order` moves to it, and its entity is returned.
pub fn next_acquirer(members: &Vec<PartyMember>, order: &mut usize) -> (entity: u64)
    requires
        members@.len() > 0,
        exists|k: int| 0 <= k < members@.len() && members_view(members@)[k] is Online,
    ensures
        exists|d: int| next_online(members_view(members@), *old(order) as int, d)
            && *final(order) as int == (*old(order) as int + d) % (members@.len() as int),
        members_view(members@)[*final(order) as int] == PartyMemberModel::Online(entity),
{
    let k = next_online_index(members, *order);
    *order = k;
    match &members[k] {
        PartyMember::Online(e) => *e,
        PartyMember::Offline(_, _) => 0,
    }
}

/// What was picked up.
#[derive(Clone, Copy, Debug, PartialEq, Eq, Structural)]
pub enum PickupContent {
    Item(usize, Item),
    Money(Money),
}

/// Why a pickup failed.
#[derive(Clone, Copy, Debug, PartialEq, Eq, Structural)]
pub enum PickupError {
    NotExist,
    NoPermission,
    InventoryFull,
}

impl InventoryItems {
    /// Puts an item into the first empty slot.
    pub fn try_add_item(&mut self, item: Item) -> (result: Result<usize, Item>)
        ensures
            match result {
                Ok(k) => first_empty(old(self).slots@, k as int)
                    && final(self).slots@ == old(self).slots@.update(k as int, Some(item)),
                Err(back) => back == item && !has_empty_slot(old(self).slots@) && final(self).slots@ == old(self).slots@,
            },
    {
        match self.find_empty_slot() {
            Some(k) => {
                self.slots.set(k, Some(item));
                Ok(k)
            },
            None => Err(item),
        }
    }
}

/// Picks a drop up into an inventory. An item goes to the first empty
/// slot, money to the purse; what does not fit stays on the ground. The
/// drop is emptied on success.
pub fn pickup_into_inventory(items: &mut InventoryItems, inventory: &mut Inventory, dropped: &mut Option<DroppedItem>)
    -> (result: Result<PickupContent, PickupError>)
    ensures
        match *old(dropped) {
            None => result == Err::<PickupContent, PickupError>(PickupError::NotExist)
                && *final(dropped) == *old(dropped) && final(items).slots@ == old(items).slots@
                && *final(inventory) == *old(inventory),
            Some(DroppedItem::Item(item)) => if has_empty_slot(old(items).slots@) {
                exists|k: int| first_empty(old(items).slots@, k)
                    && final(items).slots@ == old(items).slots@.update(k, Some(item))
                    && result == Ok::<PickupContent, PickupError>(PickupContent::Item(k as usize, item))
                    && *final(dropped) == None::<DroppedItem>
                    && *final(inventory) == *old(inventory)
            } else {
                result == Err::<PickupContent, PickupError>(PickupError::InventoryFull)
                    && *final(dropped) == *old(dropped) && final(items).slots@ == old(items).slots@
                    && *final(inventory) == *old(inventory)
            },
            Some(DroppedItem::Money(money)) => if i64::MIN <= old(inventory).money.0 + money.0 <= i64::MAX {
                result == Ok::<PickupContent, PickupError>(PickupContent::Money(money))
                    && final(inventory).money.0 == old(inventory).money.0 + money.0
                    && *final(dropped) == None::<DroppedItem> && final(items).slots@ == old(items).slots@
            } else {
                result == Err::<PickupContent, PickupError>(PickupError::InventoryFull)
                    && *final(dropped) == *old(dropped) && final(items).slots@ == old(items).slots@
                    && *final(inventory) == *old(inventory)
            },
        },
{
    match *dropped {
        None => Err(PickupError::NotExist),
        Some(DroppedItem::Item(item)) => {
            match items.try_add_item(item) {
                Ok(k) => {
                    *dropped = None;
                    Ok(PickupContent::Item(k, item))
                },
                Err(_) => Err(PickupError::InventoryFull),
            }
        },
        Some(DroppedItem::Money(money)) => {
            match inventory.try_add_money(money) {
                Ok(()) => {
                    *dropped = None;
                    Ok(PickupContent::Money(money))
                },
                Err(_) => Err(PickupError::InventoryFull),
            }
        },
    }
}

/// Picking up a drop that was commanded: only its owner (or anyone, when
/// it has none) may take it.
pub fn pickup_dropped_item(
    picker: u64,
    owner: Option<u64>,
    items: &mut InventoryItems,
    inventory: &mut Inventory,
    dropped: &mut Option<DroppedItem>,
) -> (result: Result<PickupContent, PickupError>)
    ensures
        owner is Some && owner != Some(picker) ==> result == Err::<PickupContent, PickupError>(PickupError::NoPermission)
            && *final(dropped) == *old(dropped) && final(items).slots@ == old(items).slots@
            && *final(inventory) == *old(inventory),
        !(owner is Some && owner != Some(picker)) ==> match *old(dropped) {
            None => result == Err::<PickupContent, PickupError>(PickupError::NotExist),
            Some(DroppedItem::Item(item)) => if has_empty_slot(old(items).slots@) {
                exists|k: int| first_empty(old(items).slots@, k)
                    && final(items).slots@ == old(items).slots@.update(k, Some(item))
                    && result == Ok::<PickupContent, PickupError>(PickupContent::Item(k as usize, item))
                    && *final(dropped) == None::<DroppedItem>
            } else {
                result == Err::<PickupContent, PickupError>(PickupError::InventoryFull) && *final(dropped) == *old(dropped)
            },
            Some(DroppedItem::Money(money)) => if i64::MIN <= old(inventory).money.0 + money.0 <= i64::MAX {
                result == Ok::<PickupContent, PickupError>(PickupContent::Money(money))
                    && final(inventory).money.0 == old(inventory).money.0 + money.0
                    && *final(dropped) == None::<DroppedItem>
            } else {
                result == Err::<PickupContent, PickupError>(PickupError::InventoryFull) && *final(dropped) == *old(dropped)
            },
        },
{
    if owner.is_some() && owner != Some(picker) {
        return Err(PickupError::NoPermission);
    }
    pickup_into_inventory(items, inventory, dropped)
}

} // verus!

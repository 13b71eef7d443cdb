use vstd::prelude::*;
use crate::store::{item_quantity, quantity_of};

verus! {

/// Number of equipment slots a character has.
pub const EQUIPMENT_SLOT_COUNT: usize = 11;

/// Number of vehicle part slots a character has.
pub const VEHICLE_SLOT_COUNT: usize = 5;

/// The kinds of item.
#[derive(Clone, Copy, Debug, PartialEq, Eq, Structural)]
pub enum ItemType {
    Face,
    Head,
    Body,
    Hands,
    Feet,
    Back,
    Jewellery,
    Weapon,
    SubWeapon,
    Consumable,
    Gem,
    Material,
    Quest,
    Vehicle,
}

/// An item of the game data: its kind and its number within the kind.
#[derive(Clone, Copy, Debug, PartialEq, Eq, Structural)]
pub struct ItemReference {
    pub item_type: ItemType,
    pub item_number: u32,
}

/// A piece of equipment; `life` at zero means it is broken. It may carry
/// a gem (zero for none) or have an empty socket for one, and it may have
/// been appraised.
#[derive(Clone, Copy, Debug, PartialEq, Eq, Structural)]
pub struct EquipmentItem {
    pub item: ItemReference,
    pub life: u16,
    pub gem: u16,
    pub has_socket: bool,
    pub is_appraised: bool,
}

/// A stack of items of one kind.
#[derive(Clone, Copy, Debug, PartialEq, Eq, Structural)]
pub struct StackableItem {
    pub item: ItemReference,
    pub quantity: u32,
}

/// An item in an inventory slot.
#[derive(Clone, Copy, Debug, PartialEq, Eq, Structural)]
pub enum Item {
    Equipment(EquipmentItem),
    Stackable(StackableItem),
}

/// The equipment slots.
#[derive(Clone, Copy, Debug, PartialEq, Eq, Structural)]
pub enum EquipmentIndex {
    Face,
    Head,
    Body,
    Back,
    Hands,
    Feet,
    WeaponRight,
    WeaponLeft,
    Necklace,
    Ring,
    Earring,
}

/// The vehicle part slots.
#[derive(Clone, Copy, Debug, PartialEq, Eq, Structural)]
pub enum VehiclePartIndex {
    Body,
    Engine,
    Leg,
    Ability,
    Arms,
}

/// The part of a vehicle that a vehicle item is.
#[derive(Clone, Copy, Debug, PartialEq, Eq, Structural)]
pub enum VehicleItemPart {
    Body,
    Engine,
    Leg,
    Ability,
    Arms,
}

/// Where an item is: an inventory slot, an equipment slot or a vehicle
/// part slot.
#[derive(Clone, Copy, Debug, PartialEq, Eq, Structural)]
pub enum ItemSlot {
    Inventory(usize),
    Equipment(EquipmentIndex),
    Vehicle(VehiclePartIndex),
}

pub open spec fn equipment_position(index: EquipmentIndex) -> int {
    match index {
        EquipmentIndex::Face => 0,
        EquipmentIndex::Head => 1,
        EquipmentIndex::Body => 2,
        EquipmentIndex::Back => 3,
        EquipmentIndex::Hands => 4,
        EquipmentIndex::Feet => 5,
        EquipmentIndex::WeaponRight => 6,
        EquipmentIndex::WeaponLeft => 7,
        EquipmentIndex::Necklace => 8,
        EquipmentIndex::Ring => 9,
        EquipmentIndex::Earring => 10,
    }
}

fn equipment_slot_number(index: EquipmentIndex) -> (n: usize)
    ensures
        n == equipment_position(index),
{
    match index {
        EquipmentIndex::Face => 0,
        EquipmentIndex::Head => 1,
        EquipmentIndex::Body => 2,
        EquipmentIndex::Back => 3,
        EquipmentIndex::Hands => 4,
        EquipmentIndex::Feet => 5,
        EquipmentIndex::WeaponRight => 6,
        EquipmentIndex::WeaponLeft => 7,
        EquipmentIndex::Necklace => 8,
        EquipmentIndex::Ring => 9,
        EquipmentIndex::Earring => 10,
    }
}

pub open spec fn vehicle_position(index: VehiclePartIndex) -> int {
    match index {
        VehiclePartIndex::Body => 0,
        VehiclePartIndex::Engine => 1,
        VehiclePartIndex::Leg => 2,
        VehiclePartIndex::Ability => 3,
        VehiclePartIndex::Arms => 4,
    }
}

fn vehicle_slot_number(index: VehiclePartIndex) -> (n: usize)
    ensures
        n == vehicle_position(index),
{
    match index {
        VehiclePartIndex::Body => 0,
        VehiclePartIndex::Engine => 1,
        VehiclePartIndex::Leg => 2,
        VehiclePartIndex::Ability => 3,
        VehiclePartIndex::Arms => 4,
    }
}

/// What a character wears and the parts of its vehicle.
#[derive(Clone, Debug)]
pub struct Equipment {
    pub equipped: Vec<Option<EquipmentItem>>,
    pub vehicle: Vec<Option<EquipmentItem>>,
}

impl Equipment {
    pub open spec fn wf(&self) -> bool {
        &&& self.equipped.len() == EQUIPMENT_SLOT_COUNT
        &&& self.vehicle.len() == VEHICLE_SLOT_COUNT
    }

    /// No item equipped and no vehicle part.
    pub fn new() -> (equipment: Equipment)
        ensures
            equipment.wf(),
            forall|i: int| 0 <= i < EQUIPMENT_SLOT_COUNT ==> equipment.equipped@[i] is None,
            forall|i: int| 0 <= i < VEHICLE_SLOT_COUNT ==> equipment.vehicle@[i] is None,
    {
        let mut equipped: Vec<Option<EquipmentItem>> = Vec::new();
        let mut i: usize = 0;
        while i < EQUIPMENT_SLOT_COUNT
            invariant
                i <= EQUIPMENT_SLOT_COUNT,
                equipped.len() == i,
                forall|j: int| 0 <= j < i ==> equipped@[j] is None,
            decreases EQUIPMENT_SLOT_COUNT - i,
        {
            equipped.push(None);
            i += 1;
        }
        let mut vehicle: Vec<Option<EquipmentItem>> = Vec::new();
        let mut i: usize = 0;
        while i < VEHICLE_SLOT_COUNT
            invariant
                i <= VEHICLE_SLOT_COUNT,
                vehicle.len() == i,
                forall|j: int| 0 <= j < i ==> vehicle@[j] is None,
            decreases VEHICLE_SLOT_COUNT - i,
        {
            vehicle.push(None);
            i += 1;
        }
        Equipment { equipped, vehicle }
    }

    /// The item in an equipment slot.
    pub fn get_equipment_item(&self, index: EquipmentIndex) -> (item: Option<EquipmentItem>)
        requires
            self.wf(),
        ensures
            item == self.equipped@[equipment_position(index)],
    {
        self.equipped[equipment_slot_number(index)]
    }

    /// The item in a vehicle part slot.
    pub fn get_vehicle_item(&self, index: VehiclePartIndex) -> (item: Option<EquipmentItem>)
        requires
            self.wf(),
        ensures
            item == self.vehicle@[vehicle_position(index)],
    {
        self.vehicle[vehicle_slot_number(index)]
    }
}

/// The item slots of an inventory.
#[derive(Clone, Debug)]
pub struct InventoryItems {
    pub slots: Vec<Option<Item>>,
}

/// `k` is the first empty slot.
pub open spec fn first_empty(slots: Seq<Option<Item>>, k: int) -> bool {
    &&& 0 <= k < slots.len()
    &&& slots[k] is None
    &&& forall|j: int| 0 <= j < k ==> slots[j] is Some
}

pub open spec fn has_empty_slot(slots: Seq<Option<Item>>) -> bool {
    exists|k: int| 0 <= k < slots.len() && slots[k] is None
}

impl InventoryItems {
    /// The first empty slot, if any.
    pub fn find_empty_slot(&self) -> (result: Option<usize>)
        ensures
            match result {
                Some(k) => first_empty(self.slots@, k as int),
                None => !has_empty_slot(self.slots@),
            },
    {
        let mut i: usize = 0;
        while i < self.slots.len()
            invariant
                i <= self.slots.len(),
                forall|j: int| 0 <= j < i ==> self.slots@[j] is Some,
            decreases self.slots.len() - i,
        {
            if self.slots[i].is_none() {
                return Some(i);
            }
            i += 1;
        }
        None
    }

    /// Puts a piece of equipment into the first empty slot.
    pub fn try_add_equipment_item(&mut self, item: EquipmentItem) -> (result: Result<usize, EquipmentItem>)
        ensures
            match result {
                Ok(k) => first_empty(old(self).slots@, k as int)
                    && final(self).slots@ == old(self).slots@.update(k as int, Some(Item::Equipment(item))),
                Err(back) => back == item && !has_empty_slot(old(self).slots@) && final(self).slots@ == old(self).slots@,
            },
    {
        match self.find_empty_slot() {
            Some(k) => {
                self.slots.set(k, Some(Item::Equipment(item)));
                Ok(k)
            },
            None => Err(item),
        }
    }

    /// The piece of equipment in an inventory slot.
    pub fn get_equipment_item(&self, slot: ItemSlot) -> (result: Option<EquipmentItem>)
        ensures
            result == equipment_item_at(self.slots@, slot),
    {
        match slot {
            ItemSlot::Inventory(k) => {
                if k < self.slots.len() {
                    match self.slots[k] {
                        Some(Item::Equipment(e)) => Some(e),
                        _ => None,
                    }
                } else {
                    None
                }
            },
            _ => None,
        }
    }
}

/// The piece of equipment at an inventory slot, if that slot holds one.
pub open spec fn equipment_item_at(slots: Seq<Option<Item>>, slot: ItemSlot) -> Option<EquipmentItem> {
    match slot {
        ItemSlot::Inventory(k) => if k < slots.len() {
            match slots[k as int] {
                Some(Item::Equipment(e)) => Some(e),
                _ => None,
            }
        } else {
            None
        },
        _ => None,
    }
}

/// Why taking off an item failed.
#[derive(Clone, Copy, Debug, PartialEq, Eq, Structural)]
pub enum UnequipError {
    NoItem,
    InventoryFull,
}

/// Why putting on an item failed.
#[derive(Clone, Copy, Debug, PartialEq, Eq, Structural)]
pub enum EquipItemError {
    ItemBroken,
    InvalidEquipmentIndex,
    InvalidItem,
    InvalidItemData,
    CannotUnequipOffhand,
    InventoryFull,
}

/// The slots whose content changed, with their new content.
pub type UpdatedSlots = Vec<(ItemSlot, Option<Item>)>;

/// Takes off the item in an equipment slot into the first empty inventory
/// slot.
pub fn unequip_to_inventory(equipment: &mut Equipment, inventory: &mut InventoryItems, equipment_index: EquipmentIndex)
    -> (result: Result<UpdatedSlots, UnequipError>)
    requires
        old(equipment).wf(),
    ensures
        final(equipment).wf(),
        ({
            let e = equipment_position(equipment_index);
            match old(equipment).equipped@[e] {
                None => result == Err::<UpdatedSlots, UnequipError>(UnequipError::NoItem)
                    && *final(equipment) == *old(equipment) && final(inventory).slots@ == old(inventory).slots@,
                Some(item) => if has_empty_slot(old(inventory).slots@) {
                    exists|k: int| first_empty(old(inventory).slots@, k) && {
                        &&& result matches Ok(updated) && updated@ == seq![
                            (ItemSlot::Inventory(k as usize), Some(Item::Equipment(item))),
                            (ItemSlot::Equipment(equipment_index), None::<Item>)]
                        &&& final(inventory).slots@ == old(inventory).slots@.update(k, Some(Item::Equipment(item)))
                        &&& final(equipment).equipped@ == old(equipment).equipped@.update(e, None)
                        &&& final(equipment).vehicle@ == old(equipment).vehicle@
                    }
                } else {
                    result == Err::<UpdatedSlots, UnequipError>(UnequipError::InventoryFull)
                        && final(equipment).equipped@ == old(equipment).equipped@
                        && final(equipment).vehicle@ == old(equipment).vehicle@
                        && final(inventory).slots@ == old(inventory).slots@
                },
            }
        }),
{
    let e = equipment_slot_number(equipment_index);
    let item = match equipment.equipped[e] {
        Some(item) => item,
        None => return Err(UnequipError::NoItem),
    };
    match inventory.try_add_equipment_item(item) {
        Ok(k) => {
            equipment.equipped.set(e, None);
            let mut updated: UpdatedSlots = Vec::new();
            updated.push((ItemSlot::Inventory(k), Some(Item::Equipment(item))));
            updated.push((ItemSlot::Equipment(equipment_index), None));
            assert(updated@ =~= seq![
                (ItemSlot::Inventory(k), Some(Item::Equipment(item))),
                (ItemSlot::Equipment(equipment_index), None::<Item>)]);
            Ok(updated)
        },
        Err(_) => Err(UnequipError::InventoryFull),
    }
}

/// Takes off a vehicle part into the first empty inventory slot.
pub fn unequip_vehicle_to_inventory(equipment: &mut Equipment, inventory: &mut InventoryItems, vehicle_part_index: VehiclePartIndex)
    -> (result: Result<UpdatedSlots, UnequipError>)
    requires
        old(equipment).wf(),
    ensures
        final(equipment).wf(),
        ({
            let v = vehicle_position(vehicle_part_index);
            match old(equipment).vehicle@[v] {
                None => result == Err::<UpdatedSlots, UnequipError>(UnequipError::NoItem)
                    && *final(equipment) == *old(equipment) && final(inventory).slots@ == old(inventory).slots@,
                Some(item) => if has_empty_slot(old(inventory).slots@) {
                    exists|k: int| first_empty(old(inventory).slots@, k) && {
                        &&& result matches Ok(updated) && updated@ == seq![
                            (ItemSlot::Inventory(k as usize), Some(Item::Equipment(item))),
                            (ItemSlot::Vehicle(vehicle_part_index), None::<Item>)]
                        &&& final(inventory).slots@ == old(inventory).slots@.update(k, Some(Item::Equipment(item)))
                        &&& final(equipment).vehicle@ == old(equipment).vehicle@.update(v, None)
                        &&& final(equipment).equipped@ == old(equipment).equipped@
                    }
                } else {
                    result == Err::<UpdatedSlots, UnequipError>(UnequipError::InventoryFull)
                        && final(equipment).equipped@ == old(equipment).equipped@
                        && final(equipment).vehicle@ == old(equipment).vehicle@
                        && final(inventory).slots@ == old(inventory).slots@
                },
            }
        }),
{
    let v = vehicle_slot_number(vehicle_part_index);
    let item = match equipment.vehicle[v] {
        Some(item) => item,
        None => return Err(UnequipError::NoItem),
    };
    match inventory.try_add_equipment_item(item) {
        Ok(k) => {
            equipment.vehicle.set(v, None);
            let mut updated: UpdatedSlots = Vec::new();
            updated.push((ItemSlot::Inventory(k), Some(Item::Equipment(item))));
            updated.push((ItemSlot::Vehicle(vehicle_part_index), None));
            assert(updated@ =~= seq![
                (ItemSlot::Inventory(k), Some(Item::Equipment(item))),
                (ItemSlot::Vehicle(vehicle_part_index), None::<Item>)]);
            Ok(updated)
        },
        Err(_) => Err(UnequipError::InventoryFull),
    }
}

/// The equipment slots an item of a kind may go into.
pub open spec fn correct_equipment_index(item_type: ItemType, index: EquipmentIndex) -> bool {
    match item_type {
        ItemType::Face => index == EquipmentIndex::Face,
        ItemType::Head => index == EquipmentIndex::Head,
        ItemType::Body => index == EquipmentIndex::Body,
        ItemType::Hands => index == EquipmentIndex::Hands,
        ItemType::Feet => index == EquipmentIndex::Feet,
        ItemType::Back => index == EquipmentIndex::Back,
        ItemType::Jewellery => index == EquipmentIndex::Necklace || index == EquipmentIndex::Ring
            || index == EquipmentIndex::Earring,
        ItemType::Weapon => index == EquipmentIndex::WeaponRight,
        ItemType::SubWeapon => index == EquipmentIndex::WeaponLeft,
        _ => false,
    }
}

fn is_correct_equipment_index(item_type: ItemType, index: EquipmentIndex) -> (ok: bool)
    ensures
        ok == correct_equipment_index(item_type, index),
{
    match item_type {
        ItemType::Face => index == EquipmentIndex::Face,
        ItemType::Head => index == EquipmentIndex::Head,
        ItemType::Body => index == EquipmentIndex::Body,
        ItemType::Hands => index == EquipmentIndex::Hands,
        ItemType::Feet => index == EquipmentIndex::Feet,
        ItemType::Back => index == EquipmentIndex::Back,
        ItemType::Jewellery => index == EquipmentIndex::Necklace || index == EquipmentIndex::Ring
            || index == EquipmentIndex::Earring,
        ItemType::Weapon => index == EquipmentIndex::WeaponRight,
        ItemType::SubWeapon => index == EquipmentIndex::WeaponLeft,
        _ => false,
    }
}

pub open spec fn first_empty_slot(slots: Seq<Option<Item>>) -> int {
    choose|k: int| first_empty(slots, k)
}

pub(crate) proof fn lemma_first_empty_unique(slots: Seq<Option<Item>>, a: int, b: int)
    requires
        first_empty(slots, a),
        first_empty(slots, b),
    ensures
        a == b,
{
}

pub(crate) proof fn lemma_first_empty_exists(slots: Seq<Option<Item>>)
    requires
        has_empty_slot(slots),
    ensures
        first_empty(slots, first_empty_slot(slots)),
    decreases slots.len(),
{
    let k = choose|k: int| 0 <= k < slots.len() && slots[k] is None;
    if exists|j: int| 0 <= j < k && slots[j] is None {
        let j = choose|j: int| 0 <= j < k && slots[j] is None;
        assert(slots.take(k)[j] is None);
        lemma_first_empty_exists(slots.take(k));
        let f = first_empty_slot(slots.take(k));
        assert forall|i: int| 0 <= i < f implies slots[i] is Some by {
            assert(slots.take(k)[i] is Some);
        }
        assert(slots.take(k)[f] is None);
        assert(first_empty(slots, f));
    } else {
        assert(first_empty(slots, k));
    }
}

pub open spec fn as_item(item: Option<EquipmentItem>) -> Option<Item> {
    match item {
        Some(e) => Some(Item::Equipment(e)),
        None => None,
    }
}

/// The weapon-left slot.
pub open spec fn offhand_position() -> int {
    equipment_position(EquipmentIndex::WeaponLeft)
}

/// Before a two-handed weapon is equipped, the off-hand item moves to the
/// first empty inventory slot: the equipment, the slots, and the slots
/// that changed.
pub open spec fn offhand_step(equipped: Seq<Option<EquipmentItem>>, slots: Seq<Option<Item>>, two_handed: bool)
    -> (Seq<Option<EquipmentItem>>, Seq<Option<Item>>, Seq<(ItemSlot, Option<Item>)>)
{
    if two_handed && equipped[offhand_position()] is Some {
        let k = first_empty_slot(slots);
        (equipped.update(offhand_position(), None),
         slots.update(k, as_item(equipped[offhand_position()])),
         seq![(ItemSlot::Equipment(EquipmentIndex::WeaponLeft), None::<Item>),
              (ItemSlot::Inventory(k as usize), as_item(equipped[offhand_position()]))])
    } else {
        (equipped, slots, Seq::empty())
    }
}

/// Puts on the piece of equipment in an inventory slot; what was in the
/// equipment slot takes its place in the inventory. `two_handed` is what
/// the item data says of the item, `None` when the data has no entry for
/// it. A two-handed weapon first moves the off-hand item to the inventory.
pub fn equip_from_inventory(
    equipment: &mut Equipment,
    inventory: &mut InventoryItems,
    equipment_index: EquipmentIndex,
    item_slot: ItemSlot,
    two_handed: Option<bool>,
) -> (result: Result<UpdatedSlots, EquipItemError>)
    requires
        old(equipment).wf(),
    ensures
        final(equipment).wf(),
        final(equipment).vehicle@ == old(equipment).vehicle@,
        match equipment_item_at(old(inventory).slots@, item_slot) {
            None => result == Err::<UpdatedSlots, EquipItemError>(EquipItemError::InvalidItem)
                && final(equipment).equipped@ == old(equipment).equipped@ && final(inventory).slots@ == old(inventory).slots@,
            Some(it) => if two_handed is None {
                result == Err::<UpdatedSlots, EquipItemError>(EquipItemError::InvalidItemData)
                    && final(equipment).equipped@ == old(equipment).equipped@ && final(inventory).slots@ == old(inventory).slots@
            } else if it.life == 0 {
                result == Err::<UpdatedSlots, EquipItemError>(EquipItemError::ItemBroken)
                    && final(equipment).equipped@ == old(equipment).equipped@ && final(inventory).slots@ == old(inventory).slots@
            } else if !correct_equipment_index(it.item.item_type, equipment_index) {
                result == Err::<UpdatedSlots, EquipItemError>(EquipItemError::InvalidEquipmentIndex)
                    && final(equipment).equipped@ == old(equipment).equipped@ && final(inventory).slots@ == old(inventory).slots@
            } else if two_handed == Some(true) && old(equipment).equipped@[offhand_position()] is Some
                && !has_empty_slot(old(inventory).slots@) {
                result == Err::<UpdatedSlots, EquipItemError>(EquipItemError::CannotUnequipOffhand)
                    && final(equipment).equipped@ == old(equipment).equipped@ && final(inventory).slots@ == old(inventory).slots@
            } else {
                let (eq1, sl1, up1) = offhand_step(old(equipment).equipped@, old(inventory).slots@, two_handed == Some(true));
                let e = equipment_position(equipment_index);
                let s = item_slot->Inventory_0 as int;
                &&& final(equipment).equipped@ == eq1.update(e, Some(it))
                &&& final(inventory).slots@ == sl1.update(s, as_item(eq1[e]))
                &&& result matches Ok(updated) && updated@ == up1 + seq![
                    (ItemSlot::Equipment(equipment_index), Some(Item::Equipment(it))),
                    (item_slot, as_item(eq1[e]))]
            },
        },
{
    let ghost old_equipped = equipment.equipped@;
    let ghost old_slots = inventory.slots@;
    let it = match inventory.get_equipment_item(item_slot) {
        Some(it) => it,
        None => return Err(EquipItemError::InvalidItem),
    };
    let is_two_handed = match two_handed {
        Some(t) => t,
        None => return Err(EquipItemError::InvalidItemData),
    };
    if it.life == 0 {
        return Err(EquipItemError::ItemBroken);
    }
    if !is_correct_equipment_index(it.item.item_type, equipment_index) {
        return Err(EquipItemError::InvalidEquipmentIndex);
    }
    let mut updated: UpdatedSlots = Vec::new();
    let offhand = equipment_slot_number(EquipmentIndex::WeaponLeft);
    if is_two_handed {
        match equipment.equipped[offhand] {
            Some(off) => {
                match inventory.try_add_equipment_item(off) {
                    Ok(k) => {
                        proof { lemma_first_empty_unique(old_slots, k as int, first_empty_slot(old_slots)); }
                        equipment.equipped.set(offhand, None);
                        updated.push((ItemSlot::Equipment(EquipmentIndex::WeaponLeft), None));
                        updated.push((ItemSlot::Inventory(k), Some(Item::Equipment(off))));
                        proof { lemma_first_empty_exists(old_slots); }
                    },
                    Err(_) => {
                        return Err(EquipItemError::CannotUnequipOffhand);
                    },
                }
            },
            None => {},
        }
    }
    let ghost (eq1, sl1, up1) = offhand_step(old_equipped, old_slots, is_two_handed);
    assert(equipment.equipped@ == eq1);
    assert(inventory.slots@ == sl1);
    assert(updated@ =~= up1);
    let s = match item_slot {
        ItemSlot::Inventory(s) => s,
        _ => 0,
    };
    let e = equipment_slot_number(equipment_index);
    let previous = equipment.equipped[e];
    let back: Option<Item> = match previous {
        Some(p) => Some(Item::Equipment(p)),
        None => None,
    };
    inventory.slots.set(s, back);
    equipment.equipped.set(e, Some(it));
    let ghost before = updated@;
    updated.push((ItemSlot::Equipment(equipment_index), Some(Item::Equipment(it))));
    updated.push((item_slot, back));
    assert(updated@ =~= up1 + seq![
        (ItemSlot::Equipment(equipment_index), Some(Item::Equipment(it))),
        (item_slot, as_item(eq1[equipment_position(equipment_index)]))]);
    Ok(updated)
}

/// The vehicle part slot a vehicle item fits.
pub open spec fn vehicle_part_fits(part: VehicleItemPart, index: VehiclePartIndex) -> bool {
    match part {
        VehicleItemPart::Body => index == VehiclePartIndex::Body,
        VehicleItemPart::Engine => index == VehiclePartIndex::Engine,
        VehicleItemPart::Leg => index == VehiclePartIndex::Leg,
        VehicleItemPart::Ability => index == VehiclePartIndex::Ability,
        VehicleItemPart::Arms => index == VehiclePartIndex::Arms,
    }
}

/// Puts a vehicle item from an inventory slot on the vehicle; the part that
/// was there takes its place in the inventory. `vehicle_part` is what the
/// item data says of the item, `None` when the data has no entry for it. A
/// broken engine may still be fitted.
pub fn equip_vehicle_from_inventory(
    equipment: &mut Equipment,
    inventory: &mut InventoryItems,
    vehicle_part_index: VehiclePartIndex,
    item_slot: ItemSlot,
    vehicle_part: Option<VehicleItemPart>,
) -> (result: Result<UpdatedSlots, EquipItemError>)
    requires
        old(equipment).wf(),
    ensures
        final(equipment).wf(),
        final(equipment).equipped@ == old(equipment).equipped@,
        match equipment_item_at(old(inventory).slots@, item_slot) {
            None => result == Err::<UpdatedSlots, EquipItemError>(EquipItemError::InvalidItem)
                && final(equipment).vehicle@ == old(equipment).vehicle@ && final(inventory).slots@ == old(inventory).slots@,
            Some(it) => match vehicle_part {
                None => result == Err::<UpdatedSlots, EquipItemError>(EquipItemError::InvalidItemData)
                    && final(equipment).vehicle@ == old(equipment).vehicle@ && final(inventory).slots@ == old(inventory).slots@,
                Some(part) => if !vehicle_part_fits(part, vehicle_part_index) {
                    result == Err::<UpdatedSlots, EquipItemError>(EquipItemError::InvalidEquipmentIndex)
                        && final(equipment).vehicle@ == old(equipment).vehicle@ && final(inventory).slots@ == old(inventory).slots@
                } else if vehicle_part_index != VehiclePartIndex::Engine && it.life == 0 {
                    result == Err::<UpdatedSlots, EquipItemError>(EquipItemError::ItemBroken)
                        && final(equipment).vehicle@ == old(equipment).vehicle@ && final(inventory).slots@ == old(inventory).slots@
                } else {
                    let v = vehicle_position(vehicle_part_index);
                    let s = item_slot->Inventory_0 as int;
                    let previous = old(equipment).vehicle@[v];
                    &&& final(equipment).vehicle@ == old(equipment).vehicle@.update(v, Some(it))
                    &&& final(inventory).slots@ == old(inventory).slots@.update(s, as_item(previous))
                    &&& result matches Ok(updated) && updated@ == seq![
                        (ItemSlot::Vehicle(vehicle_part_index), Some(Item::Equipment(it))),
                        (item_slot, as_item(previous))]
                },
            },
        },
{
    let it = match inventory.get_equipment_item(item_slot) {
        Some(it) => it,
        None => return Err(EquipItemError::InvalidItem),
    };
    let part = match vehicle_part {
        Some(p) => p,
        None => return Err(EquipItemError::InvalidItemData),
    };
    let fits = match part {
        VehicleItemPart::Body => vehicle_part_index == VehiclePartIndex::Body,
        VehicleItemPart::Engine => vehicle_part_index == VehiclePartIndex::Engine,
        VehicleItemPart::Leg => vehicle_part_index == VehiclePartIndex::Leg,
        VehicleItemPart::Ability => vehicle_part_index == VehiclePartIndex::Ability,
        VehicleItemPart::Arms => vehicle_part_index == VehiclePartIndex::Arms,
    };
    if !fits {
        return Err(EquipItemError::InvalidEquipmentIndex);
    }
    if vehicle_part_index != VehiclePartIndex::Engine && it.life == 0 {
        return Err(EquipItemError::ItemBroken);
    }
    let s = match item_slot {
        ItemSlot::Inventory(s) => s,
        _ => 0,
    };
    let v = vehicle_slot_number(vehicle_part_index);
    let previous = equipment.vehicle[v];
    let back: Option<Item> = match previous {
        Some(p) => Some(Item::Equipment(p)),
        None => None,
    };
    inventory.slots.set(s, back);
    equipment.vehicle.set(v, Some(it));
    let mut updated: UpdatedSlots = Vec::new();
    updated.push((ItemSlot::Vehicle(vehicle_part_index), Some(Item::Equipment(it))));
    updated.push((item_slot, back));
    assert(updated@ =~= seq![
        (ItemSlot::Vehicle(vehicle_part_index), Some(Item::Equipment(it))),
        (item_slot, as_item(previous))]);
    Ok(updated)
}

/// Wear on a worn item: the item in the slot loses one point of life,
/// unless it has none left. Returns its new life when it lost some.
pub fn decrease_item_life(equipment: &mut Equipment, slot: ItemSlot) -> (life: Option<u16>)
    requires
        old(equipment).wf(),
    ensures
        final(equipment).wf(),
        match slot {
            ItemSlot::Equipment(index) => {
                let e = equipment_position(index);
                match old(equipment).equipped@[e] {
                    Some(item) if item.life >= 1 => {
                        &&& life == Some((item.life - 1) as u16)
                        &&& final(equipment).equipped@ == old(equipment).equipped@.update(e,
                            Some(EquipmentItem { life: (item.life - 1) as u16, ..item }))
                        &&& final(equipment).vehicle@ == old(equipment).vehicle@
                    },
                    _ => life is None && final(equipment).equipped@ == old(equipment).equipped@
                        && final(equipment).vehicle@ == old(equipment).vehicle@,
                }
            },
            ItemSlot::Vehicle(index) => {
                let v = vehicle_position(index);
                match old(equipment).vehicle@[v] {
                    Some(item) if item.life >= 1 => {
                        &&& life == Some((item.life - 1) as u16)
                        &&& final(equipment).vehicle@ == old(equipment).vehicle@.update(v,
                            Some(EquipmentItem { life: (item.life - 1) as u16, ..item }))
                        &&& final(equipment).equipped@ == old(equipment).equipped@
                    },
                    _ => life is None && final(equipment).equipped@ == old(equipment).equipped@
                        && final(equipment).vehicle@ == old(equipment).vehicle@,
                }
            },
            ItemSlot::Inventory(_) => life is None && final(equipment).equipped@ == old(equipment).equipped@
                && final(equipment).vehicle@ == old(equipment).vehicle@,
        },
{
    match slot {
        ItemSlot::Equipment(index) => {
            let e = equipment_slot_number(index);
            match equipment.equipped[e] {
                Some(item) => {
                    if item.life >= 1 {
                        let worn = EquipmentItem { life: item.life - 1, ..item };
                        equipment.equipped.set(e, Some(worn));
                        Some(worn.life)
                    } else {
                        None
                    }
                },
                None => None,
            }
        },
        ItemSlot::Vehicle(index) => {
            let v = vehicle_slot_number(index);
            match equipment.vehicle[v] {
                Some(item) => {
                    if item.life >= 1 {
                        let worn = EquipmentItem { life: item.life - 1, ..item };
                        equipment.vehicle.set(v, Some(worn));
                        Some(worn.life)
                    } else {
                        None
                    }
                },
                None => None,
            }
        },
        ItemSlot::Inventory(_) => None,
    }
}

/// Fuel burnt by a vehicle's engine: an engine with life left loses its
/// fuel use rate (`None` when the item data has no entry for it), not
/// below zero. Returns its new life when it burnt fuel.
pub fn decrease_engine_life(equipment: &mut Equipment, fuel_use_rate: Option<u16>) -> (life: Option<u16>)
    requires
        old(equipment).wf(),
    ensures
        final(equipment).wf(),
        final(equipment).equipped@ == old(equipment).equipped@,
        ({
            let v = vehicle_position(VehiclePartIndex::Engine);
            match (old(equipment).vehicle@[v], fuel_use_rate) {
                (Some(engine), Some(rate)) if engine.life > 0 => {
                    let left = (if engine.life > rate { engine.life - rate } else { 0 }) as u16;
                    &&& life == Some(left)
                    &&& final(equipment).vehicle@ == old(equipment).vehicle@.update(v, Some(EquipmentItem { life: left, ..engine }))
                },
                _ => life is None && final(equipment).vehicle@ == old(equipment).vehicle@,
            }
        }),
{
    let v = vehicle_slot_number(VehiclePartIndex::Engine);
    match (equipment.vehicle[v], fuel_use_rate) {
        (Some(engine), Some(rate)) => {
            if engine.life > 0 {
                let burnt = EquipmentItem { life: engine.life.saturating_sub(rate), ..engine };
                equipment.vehicle.set(v, Some(burnt));
                Some(burnt.life)
            } else {
                None
            }
        },
        _ => None,
    }
}


/// The game data entry an item is an instance of.
pub open spec fn item_reference(item: Item) -> ItemReference {
    match item {
        Item::Equipment(e) => e.item,
        Item::Stackable(s) => s.item,
    }
}

/// A slot's content is an instance of `reference`.
pub open spec fn holds_item(slot: Option<Item>, reference: ItemReference) -> bool {
    slot matches Some(it) && item_reference(it) == reference
}

/// Slot `k` is the first slot holding an instance of `reference`.
pub open spec fn first_with_item(slots: Seq<Option<Item>>, reference: ItemReference, k: int) -> bool {
    &&& 0 <= k < slots.len()
    &&& holds_item(slots[k], reference)
    &&& forall|j: int| 0 <= j < k ==> !holds_item(#[trigger] slots[j], reference)
}

pub open spec fn has_item(slots: Seq<Option<Item>>, reference: ItemReference) -> bool {
    exists|k: int| 0 <= k < slots.len() && holds_item(#[trigger] slots[k], reference)
}

/// The quantity in the first slot holding `reference`; zero when none does.
pub open spec fn held_quantity(slots: Seq<Option<Item>>, reference: ItemReference) -> u32 {
    if has_item(slots, reference) {
        quantity_of(slots[choose|k: int| first_with_item(slots, reference, k)]->0)
    } else {
        0
    }
}

proof fn lemma_first_with_item_unique(slots: Seq<Option<Item>>, reference: ItemReference, k: int)
    requires
        first_with_item(slots, reference, k),
    ensures
        has_item(slots, reference),
        (choose|j: int| first_with_item(slots, reference, j)) == k,
{
    let j = choose|j: int| first_with_item(slots, reference, j);
    assert(first_with_item(slots, reference, j));
    if j < k {
        assert(!holds_item(slots[j], reference));
    }
    if k < j {
        assert(!holds_item(slots[k], reference));
    }
}

/// The first slot holding an instance of `reference`, if any.
pub fn find_item_slot(slots: &Vec<Option<Item>>, reference: ItemReference) -> (result: Option<usize>)
    ensures
        match result {
            Some(k) => first_with_item(slots@, reference, k as int),
            None => !has_item(slots@, reference),
        },
{
    let mut i: usize = 0;
    while i < slots.len()
        invariant
            i <= slots.len(),
            forall|j: int| 0 <= j < i ==> !holds_item(#[trigger] slots@[j], reference),
        decreases slots.len() - i,
    {
        match slots[i] {
            Some(Item::Equipment(e)) => {
                if e.item == reference {
                    return Some(i);
                }
            },
            Some(Item::Stackable(s)) => {
                if s.item == reference {
                    return Some(i);
                }
            },
            None => {},
        }
        i += 1;
    }
    None
}

/// The quantity in the first slot holding `reference`; zero when none does.
pub fn held_item_quantity(slots: &Vec<Option<Item>>, reference: ItemReference) -> (quantity: u32)
    ensures
        quantity == held_quantity(slots@, reference),
{
    match find_item_slot(slots, reference) {
        Some(k) => {
            proof { lemma_first_with_item_unique(slots@, reference, k as int); }
            match &slots[k] {
                Some(item) => item_quantity(item),
                None => 0,
            }
        },
        None => 0,
    }
}

} // verus!

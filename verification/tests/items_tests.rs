use rose_offline::bank::{bank_deposit_item, bank_withdraw_item, Bank};
use rose_offline::items::{
    decrease_engine_life, decrease_item_life, equip_from_inventory, equip_vehicle_from_inventory, unequip_to_inventory,
    unequip_vehicle_to_inventory, EquipItemError, Equipment, EquipmentIndex, EquipmentItem, InventoryItems, Item,
    ItemReference, ItemSlot, ItemType, StackableItem, UnequipError, VehicleItemPart, VehiclePartIndex,
};
use rose_offline::stats::{Inventory, Money};
use rose_offline::store::{npc_store_precheck, StoreNpcFacts,
    npc_store_buy, personal_store_buy_item, personal_store_list_items, BuyError, NpcPurchase, NpcStoreTransactionError,
    PersonalStore,
};

fn equipment_item(item_type: ItemType, number: u32, life: u16) -> EquipmentItem {
    EquipmentItem { item: ItemReference { item_type, item_number: number }, life, gem: 0, has_socket: false, is_appraised: false }
}

fn stack(number: u32, quantity: u32) -> Item {
    Item::Stackable(StackableItem { item: ItemReference { item_type: ItemType::Consumable, item_number: number }, quantity })
}

fn empty_inventory(n: usize) -> InventoryItems {
    InventoryItems { slots: vec![None; n] }
}

#[test]
fn unequip_moves_item_to_first_empty_slot() {
    let mut equipment = Equipment::new();
    let helmet = equipment_item(ItemType::Head, 3, 100);
    equipment.equipped[1] = Some(helmet);
    let mut inventory = InventoryItems { slots: vec![Some(stack(1, 1)), None, None] };
    let updated = unequip_to_inventory(&mut equipment, &mut inventory, EquipmentIndex::Head).ok().unwrap();
    assert_eq!(updated, vec![(ItemSlot::Inventory(1), Some(Item::Equipment(helmet))), (ItemSlot::Equipment(EquipmentIndex::Head), None)]);
    assert_eq!(equipment.get_equipment_item(EquipmentIndex::Head), None);
    assert_eq!(inventory.slots[1], Some(Item::Equipment(helmet)));
    assert_eq!(unequip_to_inventory(&mut equipment, &mut inventory, EquipmentIndex::Head).err(), Some(UnequipError::NoItem));
}

#[test]
fn unequip_with_full_inventory_keeps_item() {
    let mut equipment = Equipment::new();
    let engine = equipment_item(ItemType::Vehicle, 2, 10);
    equipment.vehicle[1] = Some(engine);
    let mut inventory = InventoryItems { slots: vec![Some(stack(1, 1))] };
    assert_eq!(
        unequip_vehicle_to_inventory(&mut equipment, &mut inventory, VehiclePartIndex::Engine).err(),
        Some(UnequipError::InventoryFull)
    );
    assert_eq!(equipment.get_vehicle_item(VehiclePartIndex::Engine), Some(engine));
}

#[test]
fn equip_swaps_with_worn_item() {
    let mut equipment = Equipment::new();
    let old_weapon = equipment_item(ItemType::Weapon, 1, 50);
    let new_weapon = equipment_item(ItemType::Weapon, 2, 60);
    equipment.equipped[6] = Some(old_weapon);
    let mut inventory = InventoryItems { slots: vec![Some(Item::Equipment(new_weapon)), None] };
    let updated =
        equip_from_inventory(&mut equipment, &mut inventory, EquipmentIndex::WeaponRight, ItemSlot::Inventory(0), Some(false))
            .ok()
            .unwrap();
    assert_eq!(
        updated,
        vec![
            (ItemSlot::Equipment(EquipmentIndex::WeaponRight), Some(Item::Equipment(new_weapon))),
            (ItemSlot::Inventory(0), Some(Item::Equipment(old_weapon)))
        ]
    );
    assert_eq!(equipment.get_equipment_item(EquipmentIndex::WeaponRight), Some(new_weapon));
}

#[test]
fn equip_two_handed_moves_offhand_first() {
    let mut equipment = Equipment::new();
    let shield = equipment_item(ItemType::SubWeapon, 4, 10);
    let spear = equipment_item(ItemType::Weapon, 9, 10);
    equipment.equipped[7] = Some(shield);
    let mut inventory = InventoryItems { slots: vec![Some(Item::Equipment(spear)), None] };
    let updated =
        equip_from_inventory(&mut equipment, &mut inventory, EquipmentIndex::WeaponRight, ItemSlot::Inventory(0), Some(true))
            .ok()
            .unwrap();
    assert_eq!(updated.len(), 4);
    assert_eq!(inventory.slots[1], Some(Item::Equipment(shield)));
    assert_eq!(inventory.slots[0], None);
    assert_eq!(equipment.get_equipment_item(EquipmentIndex::WeaponLeft), None);
    assert_eq!(equipment.get_equipment_item(EquipmentIndex::WeaponRight), Some(spear));
}

#[test]
fn equip_errors() {
    let mut equipment = Equipment::new();
    equipment.equipped[7] = Some(equipment_item(ItemType::SubWeapon, 4, 10));
    let broken = equipment_item(ItemType::Head, 1, 0);
    let ring = equipment_item(ItemType::Jewellery, 1, 5);
    let spear = equipment_item(ItemType::Weapon, 9, 10);
    let mut inventory = InventoryItems { slots: vec![Some(Item::Equipment(broken)), Some(Item::Equipment(ring)), Some(Item::Equipment(spear)), Some(stack(1, 2))] };
    let e = |eq: &mut Equipment, inv: &mut InventoryItems, idx, slot, th| equip_from_inventory(eq, inv, idx, slot, th).err();
    assert_eq!(e(&mut equipment, &mut inventory, EquipmentIndex::Head, ItemSlot::Inventory(3), Some(false)), Some(EquipItemError::InvalidItem));
    assert_eq!(e(&mut equipment, &mut inventory, EquipmentIndex::Head, ItemSlot::Inventory(9), Some(false)), Some(EquipItemError::InvalidItem));
    assert_eq!(e(&mut equipment, &mut inventory, EquipmentIndex::Head, ItemSlot::Inventory(0), None), Some(EquipItemError::InvalidItemData));
    assert_eq!(e(&mut equipment, &mut inventory, EquipmentIndex::Head, ItemSlot::Inventory(0), Some(false)), Some(EquipItemError::ItemBroken));
    assert_eq!(e(&mut equipment, &mut inventory, EquipmentIndex::Head, ItemSlot::Inventory(1), Some(false)), Some(EquipItemError::InvalidEquipmentIndex));
    assert_eq!(e(&mut equipment, &mut inventory, EquipmentIndex::WeaponRight, ItemSlot::Inventory(2), Some(true)), Some(EquipItemError::CannotUnequipOffhand));
    assert!(equip_from_inventory(&mut equipment, &mut inventory, EquipmentIndex::Ring, ItemSlot::Inventory(1), Some(false)).is_ok());
}

#[test]
fn equip_vehicle_parts() {
    let mut equipment = Equipment::new();
    let dead_engine = equipment_item(ItemType::Vehicle, 3, 0);
    let dead_leg = equipment_item(ItemType::Vehicle, 4, 0);
    let mut inventory = InventoryItems { slots: vec![Some(Item::Equipment(dead_engine)), Some(Item::Equipment(dead_leg))] };
    assert_eq!(
        equip_vehicle_from_inventory(&mut equipment, &mut inventory, VehiclePartIndex::Leg, ItemSlot::Inventory(1), Some(VehicleItemPart::Leg)).err(),
        Some(EquipItemError::ItemBroken)
    );
    assert_eq!(
        equip_vehicle_from_inventory(&mut equipment, &mut inventory, VehiclePartIndex::Body, ItemSlot::Inventory(0), Some(VehicleItemPart::Engine)).err(),
        Some(EquipItemError::InvalidEquipmentIndex)
    );
    // a broken engine may still be fitted
    assert!(equip_vehicle_from_inventory(&mut equipment, &mut inventory, VehiclePartIndex::Engine, ItemSlot::Inventory(0), Some(VehicleItemPart::Engine)).is_ok());
    assert_eq!(equipment.get_vehicle_item(VehiclePartIndex::Engine), Some(dead_engine));
    assert_eq!(inventory.slots[0], None);
}

#[test]
fn item_life_wears_down() {
    let mut equipment = Equipment::new();
    equipment.equipped[2] = Some(equipment_item(ItemType::Body, 1, 1));
    assert_eq!(decrease_item_life(&mut equipment, ItemSlot::Equipment(EquipmentIndex::Body)), Some(0));
    assert_eq!(decrease_item_life(&mut equipment, ItemSlot::Equipment(EquipmentIndex::Body)), None);
    assert_eq!(decrease_item_life(&mut equipment, ItemSlot::Inventory(0)), None);
    equipment.vehicle[1] = Some(equipment_item(ItemType::Vehicle, 1, 5));
    assert_eq!(decrease_engine_life(&mut equipment, Some(3)), Some(2));
    assert_eq!(decrease_engine_life(&mut equipment, Some(3)), Some(0));
    assert_eq!(decrease_engine_life(&mut equipment, Some(3)), None);
    assert_eq!(decrease_engine_life(&mut Equipment::new(), Some(3)), None);
}

#[test]
fn personal_store_lists_and_sells() {
    let potion = stack(5, 10);
    let mut store = PersonalStore { buy_items: vec![None, Some((stack(7, 1), Money(3)))], sell_items: vec![Some((0, Money(4))), Some((1, Money(9)))] };
    let mut seller_items = InventoryItems { slots: vec![Some(potion), None] };
    let (buy, sell) = personal_store_list_items(&store, &seller_items);
    assert_eq!(buy, vec![(1, stack(7, 1), Money(3))]);
    assert_eq!(sell, vec![(0, potion, Money(4))]);

    let mut seller = Inventory { money: Money(0) };
    let mut buyer_items = empty_inventory(2);
    let mut buyer = Inventory { money: Money(100) };
    assert_eq!(
        personal_store_buy_item(&mut store, &mut seller_items, &mut seller, &mut buyer_items, &mut buyer, 0, stack(5, 4)),
        Ok((0, 0))
    );
    assert_eq!(buyer.money, Money(84));
    assert_eq!(seller.money, Money(16));
    assert_eq!(buyer_items.slots[0], Some(stack(5, 4)));
    assert_eq!(seller_items.slots[0], Some(stack(5, 6)));
    assert!(store.sell_items[0].is_some());
    // buying the rest empties the store slot
    assert_eq!(
        personal_store_buy_item(&mut store, &mut seller_items, &mut seller, &mut buyer_items, &mut buyer, 0, stack(5, 6)),
        Ok((1, 0))
    );
    assert!(store.sell_items[0].is_none());
    assert_eq!(
        personal_store_buy_item(&mut store, &mut seller_items, &mut seller, &mut buyer_items, &mut buyer, 0, stack(5, 1)),
        Err(BuyError::InvalidStoreSlotIndex)
    );
    assert_eq!(
        personal_store_buy_item(&mut store, &mut seller_items, &mut seller, &mut buyer_items, &mut buyer, 1, stack(5, 1)),
        Err(BuyError::ItemSoldOut)
    );
}

#[test]
fn personal_store_refuses_poor_buyer_and_full_inventory() {
    let mut store = PersonalStore { buy_items: vec![], sell_items: vec![Some((0, Money(50)))] };
    let mut seller_items = InventoryItems { slots: vec![Some(stack(5, 10))] };
    let mut seller = Inventory { money: Money(0) };
    let mut poor = Inventory { money: Money(10) };
    let mut full = InventoryItems { slots: vec![Some(stack(1, 1))] };
    assert_eq!(
        personal_store_buy_item(&mut store, &mut seller_items, &mut seller, &mut empty_inventory(1), &mut poor, 0, stack(5, 1)),
        Err(BuyError::NotEnoughMoney)
    );
    let mut rich = Inventory { money: Money(1000) };
    assert_eq!(
        personal_store_buy_item(&mut store, &mut seller_items, &mut seller, &mut full, &mut rich, 0, stack(5, 1)),
        Err(BuyError::InventoryFull)
    );
    assert_eq!(rich.money, Money(1000));
    assert_eq!(
        personal_store_buy_item(&mut store, &mut seller_items, &mut seller, &mut empty_inventory(1), &mut rich, 0, stack(5, 11)),
        Err(BuyError::ItemSoldOut)
    );
}

#[test]
fn npc_store_is_all_or_nothing() {
    let mut items = empty_inventory(2);
    let mut inventory = Inventory { money: Money(100) };
    let purchases = vec![
        NpcPurchase { item: stack(1, 5), unit_price: 10, quantity: 5 },
        NpcPurchase { item: stack(2, 1), unit_price: 20, quantity: 1 },
    ];
    assert_eq!(npc_store_buy(&mut items, &mut inventory, &purchases), Ok(vec![0, 1]));
    assert_eq!(inventory.money, Money(30));
    let mut poor = Inventory { money: Money(60) };
    let mut other = empty_inventory(2);
    assert_eq!(npc_store_buy(&mut other, &mut poor, &purchases), Err(NpcStoreTransactionError::NotEnoughMoney));
    assert_eq!(other.slots, vec![None, None]);
    let mut small = empty_inventory(1);
    assert_eq!(npc_store_buy(&mut small, &mut inventory, &purchases), Err(NpcStoreTransactionError::NpcNotFound));
    assert_eq!(small.slots, vec![None]);
}

#[test]
fn bank_open_deposit_withdraw() {
    let mut bank = Bank { items: InventoryItems { slots: vec![None, Some(stack(3, 2))] }, sent_to_client: false };
    assert_eq!(bank.open(), Some(vec![(1, stack(3, 2))]));
    assert_eq!(bank.open(), None);
    let mut inventory = InventoryItems { slots: vec![Some(stack(5, 10))] };
    assert_eq!(bank_deposit_item(&mut bank, &mut inventory, 0, stack(5, 4)), Some(0));
    assert_eq!(inventory.slots[0], Some(stack(5, 6)));
    assert_eq!(bank.items.slots[0], Some(stack(5, 4)));
    assert_eq!(bank_deposit_item(&mut bank, &mut inventory, 0, stack(9, 1)), None);
    assert_eq!(bank_withdraw_item(&mut bank, &mut inventory, 1, stack(3, 2)), None);
    let mut roomy = empty_inventory(1);
    assert_eq!(bank_withdraw_item(&mut bank, &mut roomy, 1, stack(3, 2)), Some(0));
    assert_eq!(bank.items.slots[1], None);
}

#[test]
fn npc_store_prechecks() {
    let near = StoreNpcFacts { union_store: false, same_zone: true, within_reach: true };
    assert_eq!(npc_store_precheck(Some(near)), Ok(()));
    assert_eq!(npc_store_precheck(None), Err(NpcStoreTransactionError::NpcNotFound));
    assert_eq!(npc_store_precheck(Some(StoreNpcFacts { union_store: true, ..near })), Err(NpcStoreTransactionError::NotSameUnion));
    assert_eq!(npc_store_precheck(Some(StoreNpcFacts { same_zone: false, ..near })), Err(NpcStoreTransactionError::NpcTooFarAway));
    assert_eq!(npc_store_precheck(Some(StoreNpcFacts { within_reach: false, ..near })), Err(NpcStoreTransactionError::NpcTooFarAway));
}

use vstd::prelude::*;
use crate::items::{
    EquipmentIndex, EquipmentItem, Item, ItemReference, ItemType, equipment_position,
    first_empty, first_empty_slot, has_empty_slot, held_quantity, held_item_quantity,
    lemma_first_empty_exists, lemma_first_empty_unique,
};
use crate::operators::{QsdConditionOperator, quest_compare, quest_condition_operator};
use crate::quest::{
    ActiveQuestModel, QuestParameters, QuestParametersModel, QuestStateModel, quest_slot_view, selected_active_quest,
    selected_quest,
};
use crate::rewards::QuestSourceModel;

verus! {

/// One item requirement of a "quest items" condition: an item worn in an
/// equipment slot, or a number of items carried.
#[derive(Clone, Copy, Debug, PartialEq, Eq, Structural)]
pub struct QsdConditionQuestItem {
    pub item: Option<ItemReference>,
    pub equipment_index: Option<EquipmentIndex>,
    pub required_count: u32,
    pub operator: QsdConditionOperator,
}

/// Quest items live in the selected quest, not in the inventory.
pub open spec fn is_quest_item(reference: ItemReference) -> bool {
    reference.item_type == ItemType::Quest
}

/// How many of `reference` the condition counts: in the selected quest's
/// item slots for a quest item, in the inventory otherwise.
pub open spec fn counted_quantity(p: QuestParametersModel, reference: ItemReference) -> u32 {
    if is_quest_item(reference) {
        match selected_quest(p) {
            Some(q) => held_quantity(q.items, reference),
            None => 0,
        }
    } else {
        match p.source.items {
            Some(slots) => held_quantity(slots, reference),
            None => 0,
        }
    }
}

/// The item reference of what an equipment slot holds.
pub open spec fn worn_reference(worn: Option<EquipmentItem>) -> Option<ItemReference> {
    match worn {
        Some(e) => Some(e.item),
        None => None,
    }
}

/// The meaning of one item requirement. With an equipment slot, the slot
/// must hold exactly `item` (an empty slot matches no item); otherwise the
/// count of `item` (zero for no item) compares to `required_count`.
pub open spec fn spec_quest_item(p: QuestParametersModel, c: QsdConditionQuestItem) -> bool {
    match c.equipment_index {
        Some(index) => match p.source.equipment {
            Some(equipped) => c.item == worn_reference(equipped[equipment_position(index)]),
            None => false,
        },
        None => {
            let quantity: u32 = match c.item {
                Some(reference) => counted_quantity(p, reference),
                None => 0,
            };
            quest_compare(c.operator, quantity as int, c.required_count as int)
        },
    }
}

/// Condition "quest item": one item requirement.
pub fn quest_condition_quest_item(quest_parameters: &QuestParameters, condition: &QsdConditionQuestItem) -> (result: bool)
    requires
        quest_parameters.wf(),
    ensures
        result == spec_quest_item(quest_parameters@, *condition),
{
    match condition.equipment_index {
        Some(index) => match &quest_parameters.source.equipment {
            Some(equipment) => {
                let worn = match equipment.get_equipment_item(index) {
                    Some(e) => Some(e.item),
                    None => None,
                };
                condition.item == worn
            },
            None => false,
        },
        None => {
            let quantity: u32 = match condition.item {
                Some(reference) => {
                    if reference.item_type == ItemType::Quest {
                        match selected_active_quest(quest_parameters) {
                            Some(quest) => held_item_quantity(&quest.items, reference),
                            None => 0,
                        }
                    } else {
                        match &quest_parameters.source.items {
                            Some(items) => held_item_quantity(&items.slots, reference),
                            None => 0,
                        }
                    }
                },
                None => 0,
            };
            quest_condition_operator(condition.operator, quantity as i64, condition.required_count as i64)
        },
    }
}

/// Condition "quest items": every item requirement holds.
pub fn quest_condition_quest_items(quest_parameters: &QuestParameters, conditions: &Vec<QsdConditionQuestItem>) -> (result: bool)
    requires
        quest_parameters.wf(),
    ensures
        result == forall|i: int| 0 <= i < conditions@.len() ==> #[trigger] spec_quest_item(quest_parameters@, conditions@[i]),
{
    let mut i: usize = 0;
    while i < conditions.len()
        invariant
            i <= conditions.len(),
            quest_parameters.wf(),
            forall|j: int| 0 <= j < i ==> #[trigger] spec_quest_item(quest_parameters@, conditions@[j]),
        decreases conditions.len() - i,
    {
        if !quest_condition_quest_item(quest_parameters, &conditions[i]) {
            assert(!spec_quest_item(quest_parameters@, conditions@[i as int]));
            return false;
        }
        i += 1;
    }
    true
}

/// Slots with an item put into the first empty one.
pub open spec fn with_item_added(slots: Seq<Option<Item>>, item: Item) -> Seq<Option<Item>> {
    slots.update(first_empty_slot(slots), Some(item))
}

/// The meaning of the "add item" reward, given the item that the game data
/// made of the reward's item and quantity (`None` when it made none). A
/// quest item goes into the selected quest and the reward fails when that
/// quest has no room; any other item goes into the inventory, and the reward
/// counts as applied even when the inventory had no room for it.
pub open spec fn spec_add_item(p: QuestParametersModel, reference: ItemReference, item: Option<Item>) -> (QuestParametersModel, bool) {
    if is_quest_item(reference) {
        match (p.quest_state, p.selected_quest_index, item) {
            (Some(qs), Some(i), Some(it)) =>
                if i < qs.active_quests.len() {
                    match qs.active_quests[i as int] {
                        Some(q) => if has_empty_slot(q.items) {
                            (QuestParametersModel {
                                quest_state: Some(QuestStateModel {
                                    active_quests: qs.active_quests.update(i as int,
                                        Some(ActiveQuestModel { items: with_item_added(q.items, it), ..q })),
                                    ..qs }),
                                ..p }, true)
                        } else {
                            (p, false)
                        },
                        None => (p, false),
                    }
                } else {
                    (p, false)
                },
            _ => (p, false),
        }
    } else {
        match (item, p.source.items) {
            (Some(it), Some(slots)) => if has_empty_slot(slots) {
                (QuestParametersModel {
                    source: QuestSourceModel { items: Some(with_item_added(slots, it)), ..p.source },
                    ..p }, true)
            } else {
                (p, true)
            },
            _ => (p, false),
        }
    }
}

fn first_empty_index(slots: &Vec<Option<Item>>) -> (result: Option<usize>)
    ensures
        match result {
            Some(k) => first_empty(slots@, k as int),
            None => !has_empty_slot(slots@),
        },
{
    let mut i: usize = 0;
    while i < slots.len()
        invariant
            i <= slots.len(),
            forall|j: int| 0 <= j < i ==> slots@[j] is Some,
        decreases slots.len() - i,
    {
        if slots[i].is_none() {
            return Some(i);
        }
        i += 1;
    }
    None
}

fn add_to_first_empty(slots: &mut Vec<Option<Item>>, item: Item) -> (added: bool)
    ensures
        added == has_empty_slot(old(slots)@),
        added ==> final(slots)@ == with_item_added(old(slots)@, item),
        !added ==> final(slots)@ == old(slots)@,
{
    match first_empty_index(slots) {
        Some(k) => {
            proof {
                lemma_first_empty_exists(slots@);
                lemma_first_empty_unique(slots@, k as int, first_empty_slot(slots@));
            }
            slots.set(k, Some(item));
            true
        },
        None => false,
    }
}

/// Reward "add item": puts `item`, the item the game data made of
/// `reference` and the reward's quantity, where `spec_add_item` says.
pub fn quest_reward_add_item(quest_parameters: &mut QuestParameters, reference: ItemReference, item: Option<Item>) -> (result: bool)
    requires
        old(quest_parameters).wf(),
    ensures
        final(quest_parameters).wf(),
        (final(quest_parameters)@, result) == spec_add_item(old(quest_parameters)@, reference, item),
{
    if reference.item_type == ItemType::Quest {
        let index = match quest_parameters.selected_quest_index {
            Some(i) => i,
            None => return false,
        };
        let it = match item {
            Some(it) => it,
            None => return false,
        };
        match quest_parameters.quest_state.take() {
            Some(mut quest_state) => {
                let ghost qs0 = quest_state@;
                if index < quest_state.active_quests.len() {
                    proof {
                        assert(qs0.active_quests[index as int] == quest_slot_view(quest_state.active_quests@[index as int]));
                    }
                    match quest_state.active_quests[index].take() {
                        Some(mut quest) => {
                            let added = add_to_first_empty(&mut quest.items, it);
                            quest_state.active_quests.set(index, Some(quest));
                            proof {
                                assert(quest_state@.active_quests =~= if added {
                                    qs0.active_quests.update(index as int, Some(ActiveQuestModel {
                                        items: with_item_added(qs0.active_quests[index as int]->0.items, it),
                                        ..qs0.active_quests[index as int]->0 }))
                                } else {
                                    qs0.active_quests
                                });
                            }
                            quest_parameters.quest_state = Some(quest_state);
                            added
                        },
                        None => {
                            proof { assert(quest_state@.active_quests =~= qs0.active_quests); }
                            quest_parameters.quest_state = Some(quest_state);
                            false
                        },
                    }
                } else {
                    quest_parameters.quest_state = Some(quest_state);
                    false
                }
            },
            None => false,
        }
    } else {
        let it = match item {
            Some(it) => it,
            None => return false,
        };
        match quest_parameters.source.items.take() {
            Some(mut items) => {
                add_to_first_empty(&mut items.slots, it);
                quest_parameters.source.items = Some(items);
                true
            },
            None => false,
        }
    }
}

/// The kinds of item that come in stacks.
pub open spec fn is_stackable(item_type: ItemType) -> bool {
    matches!(item_type, ItemType::Consumable | ItemType::Gem | ItemType::Material | ItemType::Quest)
}

pub(crate) fn item_type_is_stackable(item_type: ItemType) -> (stackable: bool)
    ensures
        stackable == is_stackable(item_type),
{
    match item_type {
        ItemType::Consumable | ItemType::Gem | ItemType::Material | ItemType::Quest => true,
        _ => false,
    }
}

/// Whether a calculated piece of equipment rolls for a socket: only one
/// without a gem whose item data marks it as of the second rare type.
pub open spec fn rolls_for_socket(base: EquipmentItem, gem: Option<ItemReference>, rare_type: u8) -> bool {
    with_reward_gem(base, gem).gem == 0 && rare_type == 2
}

pub(crate) fn needs_socket_roll(base: EquipmentItem, gem: Option<ItemReference>, rare_type: u8) -> (rolls: bool)
    ensures
        rolls == rolls_for_socket(base, gem, rare_type),
{
    let fitted_gem: u16 = match gem {
        Some(g) => if g.item_number < 300 { g.item_number as u16 } else { base.gem },
        None => base.gem,
    };
    fitted_gem == 0 && rare_type == 2
}

/// A piece of equipment with the reward's gem set in: a gem numbered below
/// 300 is fitted (appraised, no free socket); any other is ignored.
pub open spec fn with_reward_gem(base: EquipmentItem, gem: Option<ItemReference>) -> EquipmentItem {
    match gem {
        Some(g) => if g.item_number < 300 {
            EquipmentItem { is_appraised: true, has_socket: false, gem: g.item_number as u16, ..base }
        } else {
            base
        },
        None => base,
    }
}

/// The piece of equipment a calculated item reward gives: the reward's gem
/// is fitted; without a gem, an item of the first rare type gets a socket,
/// and one of the second gets one when its quality plus 60 beats `roll`
/// (a draw from `0..400`). A socketed item counts as appraised.
pub open spec fn reward_equipment(base: EquipmentItem, gem: Option<ItemReference>, rare_type: u8, quality: i32, roll: i32) -> EquipmentItem {
    let fitted = with_reward_gem(base, gem);
    if fitted.gem == 0 && (rare_type == 1 || (rare_type == 2 && quality + 60 > roll)) {
        EquipmentItem { has_socket: true, is_appraised: true, ..fitted }
    } else {
        fitted
    }
}

/// The item a calculated item reward gives. A stackable item comes in the
/// quantity the reward equation gave, `stack` being what the item data
/// made of it, and none when that quantity is not positive; otherwise
/// `equipment`, what the item data made of the item, with its gem and
/// socket settled.
pub open spec fn calculated_item(reward_item: ItemReference, gem: Option<ItemReference>, reward_value: i32,
    stack: Option<Item>, equipment: Option<EquipmentItem>, rare_type: u8, quality: i32, roll: i32) -> Option<Item> {
    if is_stackable(reward_item.item_type) {
        if reward_value > 0 { stack } else { None }
    } else {
        match equipment {
            Some(e) => Some(Item::Equipment(reward_equipment(e, gem, rare_type, quality, roll))),
            None => None,
        }
    }
}

/// Settles the gem and socket of a piece of equipment given by a calculated
/// item reward; `roll` is only read when `rolls_for_socket`.
pub fn settle_reward_equipment(base: EquipmentItem, gem: Option<ItemReference>, rare_type: u8, quality: i32, roll: i32)
    -> (item: EquipmentItem)
    ensures
        item == reward_equipment(base, gem, rare_type, quality, roll),
{
    let mut item = base;
    if let Some(g) = gem {
        if g.item_number < 300 {
            item.is_appraised = true;
            item.has_socket = false;
            item.gem = g.item_number as u16;
        }
    }
    if item.gem == 0 {
        let socket = rare_type == 1 || (rare_type == 2 && quality as i64 + 60 > roll as i64);
        if socket {
            item.has_socket = true;
            item.is_appraised = true;
        }
    }
    item
}

/// Puts an item, if any, into the first empty inventory slot; with no
/// room, or no inventory, nothing changes.
pub open spec fn spec_add_to_inventory(p: QuestParametersModel, item: Option<Item>) -> QuestParametersModel {
    match (item, p.source.items) {
        (Some(it), Some(slots)) => if has_empty_slot(slots) {
            QuestParametersModel { source: QuestSourceModel { items: Some(with_item_added(slots, it)), ..p.source }, ..p }
        } else {
            p
        },
        _ => p,
    }
}

/// Reward "calculated item": puts the item into the inventory where there
/// is room (an item left over is not dropped). The reward always counts as
/// applied.
pub fn quest_reward_calculated_item(quest_parameters: &mut QuestParameters, item: Option<Item>) -> (result: bool)
    requires
        old(quest_parameters).wf(),
    ensures
        result,
        final(quest_parameters).wf(),
        final(quest_parameters)@ == spec_add_to_inventory(old(quest_parameters)@, item),
{
    if let Some(it) = item {
        match quest_parameters.source.items.take() {
            Some(mut items) => {
                add_to_first_empty(&mut items.slots, it);
                quest_parameters.source.items = Some(items);
            },
            None => {},
        }
    }
    true
}

} // verus!

use rose_offline::items::{
    Equipment, EquipmentIndex, EquipmentItem, InventoryItems, Item, ItemReference, ItemType, StackableItem,
};
use rose_offline::operators::QsdConditionOperator;
use rose_offline::quest::{
    get_quest_calculated_money_dup_count_var, quest_condition_month_day_time, quest_condition_quest_switch,
    quest_condition_quest_variable, quest_condition_select_quest, quest_condition_week_day_time,
    quest_condition_world_time, quest_delete, quest_get_expire_time, quest_reward_calculated_experience_points,
    quest_reward_calculated_money, quest_reward_quest_action, quest_reward_set_quest_switch,
    reset_quest_calculated_money_dup_count_var, ActiveQuest, LocalTime, QsdRewardQuestAction, QsdVariableType,
    QuestParameters, QuestState,
};
use rose_offline::quest_items::{
    quest_condition_quest_item, quest_condition_quest_items, quest_reward_add_item, QsdConditionQuestItem,
};
use rose_offline::rewards::{quest_reward_add_ability_value, quest_reward_set_ability_value, AbilityUpdate, QuestSource, QuestSourceModel};
use rose_offline::stats::{AbilityType, BasicStats, CharacterInfo, Inventory, Money, SkillPoints, StatPoints, UnionMembership};
use rose_offline::trigger::{
    quest_next_trigger_name, quest_reward_add_skill, quest_reward_teleport, quest_run_trigger, quest_trigger_apply_rewards,
    quest_trigger_check_conditions,
    QsdCondition, QsdConditionQuestVariable, QsdReward, QsdRewardOperator, QuestClock, QuestData, QuestTrigger,
};

struct TestData;

impl QuestData for TestData {
    // Each answer of the game data also has its name as a function of the
    // question; here the name gives the same answer as the method.
    fn time_limit_of(&self, quest_id: usize) -> Option<u64> {
        self.quest_time_limit(quest_id)
    }

    fn ability_value_of(&self, source: QuestSourceModel, ability_type: AbilityType) -> i32 {
        match ability_type {
            AbilityType::Strength => source.basic_stats.map(|b| b.strength as i32).unwrap_or(0),
            AbilityType::Level => 20,
            _ => 0,
        }
    }

    fn new_item_of(&self, item: ItemReference, quantity: u32) -> Option<Item> {
        self.new_item(item, quantity)
    }

    fn new_equipment_of(&self, item: ItemReference) -> Option<EquipmentItem> {
        self.new_equipment_item(item)
    }

    fn rare_of(&self, item: ItemReference) -> (u8, i32) {
        self.rare_type_and_quality(item)
    }

    fn reward_value_of(
        &self,
        reward_equation_id: usize,
        base_reward_value: i32,
        dup_count: i32,
        level: i32,
        charm: i32,
        fame: i32,
        reward_rate: i32,
    ) -> i32 {
        self.calculate_reward_value(reward_equation_id, base_reward_value, dup_count, level, charm, fame, reward_rate)
    }

    fn quest_time_limit(&self, quest_id: usize) -> Option<u64> {
        if quest_id == 7 {
            Some(100)
        } else {
            None
        }
    }

    fn ability_value(&self, source: &QuestSource, ability_type: AbilityType) -> i32 {
        match ability_type {
            AbilityType::Strength => source.basic_stats.map(|b| b.strength as i32).unwrap_or(0),
            AbilityType::Level => 20,
            _ => 0,
        }
    }

    fn learn_skill(&self, _source: &QuestSource, skill_id: u16) -> bool {
        skill_id < 100
    }

    fn new_item(&self, item: ItemReference, quantity: u32) -> Option<Item> {
        if quantity == 0 {
            None
        } else {
            Some(Item::Stackable(StackableItem { item, quantity }))
        }
    }

    fn new_equipment_item(&self, item: ItemReference) -> Option<EquipmentItem> {
        match item.item_type {
            ItemType::Weapon | ItemType::Head | ItemType::Body => {
                Some(EquipmentItem { item, life: 1000, gem: 0, has_socket: false, is_appraised: false })
            }
            _ => None,
        }
    }

    fn rare_type_and_quality(&self, item: ItemReference) -> (u8, i32) {
        // Weapons are of the first rare type, heads of the second with a
        // quality that always wins the draw, bodies never.
        match item.item_type {
            ItemType::Weapon => (1, 0),
            ItemType::Head => (2, 400),
            _ => (2, -100),
        }
    }

    fn calculate_reward_value(
        &self,
        _reward_equation_id: usize,
        base_reward_value: i32,
        dup_count: i32,
        level: i32,
        _charm: i32,
        _fame: i32,
        _reward_rate: i32,
    ) -> i32 {
        base_reward_value * level - dup_count
    }
}

fn source() -> QuestSource {
    QuestSource {
        inventory: Some(Inventory { money: Money(1000) }),
        items: Some(InventoryItems { slots: vec![None, None, None] }),
        equipment: Some(Equipment::new()),
        level: 10,
        character_info: Some(CharacterInfo { gender: 0, face: 1, hair: 2, job: 0, fame: 0 }),
        basic_stats: Some(BasicStats {
            strength: 10,
            dexterity: 10,
            intelligence: 10,
            concentration: 10,
            charm: 10,
            sense: 10,
        }),
        stat_points: Some(StatPoints { points: 5 }),
        skill_points: Some(SkillPoints { points: 1 }),
        union_membership: Some(UnionMembership { current_union: None, points: vec![0; 10] }),
    }
}

fn quest_state() -> QuestState {
    QuestState {
        active_quests: vec![None, None, None],
        quest_switches: vec![false; 8],
        episode_variables: vec![0; 5],
        job_variables: vec![0; 3],
        planet_variables: vec![0; 7],
        union_variables: vec![0; 10],
    }
}

fn parameters() -> QuestParameters {
    QuestParameters {
        source: source(),
        quest_state: Some(quest_state()),
        selected_quest_index: None,
        next_trigger_name: None,
        reward_xp: Vec::new(),
        teleport_zones: Vec::new(),
        ability_updates: Vec::new(),
    }
}

fn clock() -> QuestClock {
    QuestClock {
        world_ticks: 1000,
        world_time: 50,
        local_time: LocalTime { day: 3, weekday_from_sunday: 2, hour: 10, minute: 30 },
        reward_rate: 100,
    }
}

fn quest_item(number: u32) -> ItemReference {
    ItemReference { item_type: ItemType::Quest, item_number: number }
}

#[test]
fn new_active_quest_starts_empty() {
    let quest = ActiveQuest::new(5, Some(10));
    assert_eq!(quest.quest_id, 5);
    assert_eq!(quest.expire_time, Some(10));
    assert_eq!(quest.variables, vec![0u16; 10]);
    assert_eq!(quest.switches, vec![false; 32]);
    assert_eq!(quest.items.len(), 6);
    assert!(quest.items.iter().all(|i| i.is_none()));
}

#[test]
fn add_quest_uses_first_free_slot_and_select_finds_it() {
    let mut qs = quest_state();
    qs.active_quests[0] = Some(ActiveQuest::new(1, None));
    assert_eq!(qs.try_add_quest(ActiveQuest::new(2, None)), Some(1));
    assert_eq!(qs.find_active_quest_index(2), Some(1));
    assert_eq!(qs.find_active_quest_index(3), None);

    let mut p = parameters();
    p.quest_state = Some(qs);
    assert!(quest_condition_select_quest(&mut p, 2));
    assert_eq!(p.selected_quest_index, Some(1));
    assert!(!quest_condition_select_quest(&mut p, 9));
    assert_eq!(p.selected_quest_index, Some(1));
}

#[test]
fn add_quest_fails_when_all_slots_taken() {
    let mut qs = quest_state();
    for i in 0..3 {
        qs.active_quests[i] = Some(ActiveQuest::new(i, None));
    }
    assert_eq!(qs.try_add_quest(ActiveQuest::new(9, None)), None);
    assert_eq!(qs.find_active_quest_index(9), None);
}

#[test]
fn quest_switches_are_read_and_set() {
    let mut p = parameters();
    assert!(quest_condition_quest_switch(&p, 3, false));
    assert!(quest_reward_set_quest_switch(&mut p, 3, true));
    assert!(quest_condition_quest_switch(&p, 3, true));
    assert!(!quest_condition_quest_switch(&p, 3, false));
    assert!(!quest_reward_set_quest_switch(&mut p, 8, true));
    assert!(!quest_condition_quest_switch(&p, 8, false));
}

#[test]
fn quest_variables_are_compared() {
    let mut p = parameters();
    let mut quest = ActiveQuest::new(4, Some(1500));
    quest.variables[2] = 7;
    quest.switches[1] = true;
    p.quest_state.as_mut().unwrap().active_quests[0] = Some(quest);
    p.quest_state.as_mut().unwrap().episode_variables[1] = 3;
    p.selected_quest_index = Some(0);

    assert!(quest_condition_quest_variable(&p, 1000, QsdVariableType::Variable, 2, QsdConditionOperator::Equals, 7));
    assert!(!quest_condition_quest_variable(&p, 1000, QsdVariableType::Variable, 2, QsdConditionOperator::LessThan, 7));
    assert!(quest_condition_quest_variable(&p, 1000, QsdVariableType::Switch, 1, QsdConditionOperator::Equals, 1));
    assert!(quest_condition_quest_variable(&p, 1000, QsdVariableType::Timer, 0, QsdConditionOperator::Equals, 500));
    assert!(quest_condition_quest_variable(&p, 2000, QsdVariableType::Timer, 0, QsdConditionOperator::Equals, 0));
    assert!(quest_condition_quest_variable(&p, 0, QsdVariableType::Episode, 1, QsdConditionOperator::GreaterThanEqual, 3));
    // A variable that does not exist fails every comparison.
    assert!(!quest_condition_quest_variable(&p, 0, QsdVariableType::Episode, 9, QsdConditionOperator::NotEqual, 3));
    assert!(!quest_condition_quest_variable(&p, 0, QsdVariableType::Variable, 10, QsdConditionOperator::NotEqual, 3));
}

#[test]
fn quest_actions_change_slots() {
    let mut p = parameters();
    assert!(quest_reward_quest_action(&mut p, QsdRewardQuestAction::Add(7), 1000, Some(100)));
    let qs = p.quest_state.as_ref().unwrap();
    assert_eq!(qs.active_quests[0].as_ref().unwrap().quest_id, 7);
    assert_eq!(qs.active_quests[0].as_ref().unwrap().expire_time, Some(1100));
    assert_eq!(p.selected_quest_index, Some(0));

    p.quest_state.as_mut().unwrap().active_quests[0].as_mut().unwrap().variables[0] = 9;
    assert!(quest_reward_quest_action(&mut p, QsdRewardQuestAction::ChangeSelectedIdKeepData(8), 1000, None));
    let q = p.quest_state.as_ref().unwrap().active_quests[0].as_ref().unwrap();
    assert_eq!(q.quest_id, 8);
    assert_eq!(q.variables[0], 9);

    assert!(quest_reward_quest_action(&mut p, QsdRewardQuestAction::ChangeSelectedIdResetData(6), 1000, None));
    let q = p.quest_state.as_ref().unwrap().active_quests[0].as_ref().unwrap();
    assert_eq!(q.quest_id, 6);
    assert_eq!(q.variables[0], 0);

    assert!(quest_reward_quest_action(&mut p, QsdRewardQuestAction::RemoveSelected, 1000, None));
    assert!(p.quest_state.as_ref().unwrap().active_quests[0].is_none());
    assert!(!quest_reward_quest_action(&mut p, QsdRewardQuestAction::Select(6), 1000, None));
}

#[test]
fn expire_time_adds_time_limit() {
    assert_eq!(quest_get_expire_time(1000, Some(50)), Some(1050));
    assert_eq!(quest_get_expire_time(1000, None), None);
}

#[test]
fn calculated_money_pays_and_resets_repeat_counter() {
    let mut p = parameters();
    let mut quest = ActiveQuest::new(4, None);
    quest.variables[9] = 3;
    p.quest_state.as_mut().unwrap().active_quests[1] = Some(quest);
    p.selected_quest_index = Some(1);
    assert_eq!(get_quest_calculated_money_dup_count_var(&p), Some(3));
    assert!(quest_reward_calculated_money(&mut p, 250));
    assert_eq!(p.source.inventory, Some(Inventory { money: Money(1250) }));
    assert_eq!(get_quest_calculated_money_dup_count_var(&p), Some(0));
    assert_eq!(reset_quest_calculated_money_dup_count_var(&mut p), Some(()));
    p.selected_quest_index = None;
    assert_eq!(reset_quest_calculated_money_dup_count_var(&mut p), None);
}

#[test]
fn calculated_experience_is_queued() {
    let mut p = parameters();
    assert!(quest_reward_calculated_experience_points(&mut p, 40));
    assert!(quest_reward_calculated_experience_points(&mut p, -1));
    assert_eq!(p.reward_xp, vec![40u64, u64::MAX]);
}

#[test]
fn time_conditions() {
    assert!(quest_condition_world_time(50, 10, 50));
    assert!(!quest_condition_world_time(51, 10, 50));
    let t = LocalTime { day: 3, weekday_from_sunday: 2, hour: 10, minute: 30 };
    // The minutes of the day are read as the hour plus the minute.
    assert!(quest_condition_month_day_time(t, Some(3), 40, 40));
    assert!(!quest_condition_month_day_time(t, Some(4), 0, 1000));
    assert!(quest_condition_month_day_time(t, None, 0, 1000));
    assert!(quest_condition_week_day_time(t, 2, 0, 40));
    assert!(!quest_condition_week_day_time(t, 1, 0, 40));
}

#[test]
fn delete_quest_needs_matching_slot() {
    let mut qs = quest_state();
    qs.active_quests[2] = Some(ActiveQuest::new(11, None));
    assert!(!quest_delete(&mut qs, 2, 12));
    assert!(!quest_delete(&mut qs, 5, 11));
    assert!(quest_delete(&mut qs, 2, 11));
    assert!(qs.active_quests[2].is_none());
}

#[test]
fn set_ability_values() {
    let mut s = source();
    assert!(quest_reward_set_ability_value(&mut s, AbilityType::Strength, 70_000));
    assert_eq!(s.basic_stats.unwrap().strength, 4464);
    assert!(quest_reward_set_ability_value(&mut s, AbilityType::Face, 4));
    assert_eq!(s.character_info.unwrap().face, 4);
    assert!(quest_reward_set_ability_value(&mut s, AbilityType::Union, 3));
    assert_eq!(s.union_membership.as_ref().unwrap().current_union, Some(3));
    assert!(quest_reward_set_ability_value(&mut s, AbilityType::Union, 0));
    assert_eq!(s.union_membership.as_ref().unwrap().current_union, None);
    assert!(quest_reward_set_ability_value(&mut s, AbilityType::UnionPoint3, 12));
    assert_eq!(s.union_membership.as_ref().unwrap().points[2], 12);
    assert!(!quest_reward_set_ability_value(&mut s, AbilityType::Money, 12));
    s.basic_stats = None;
    assert!(!quest_reward_set_ability_value(&mut s, AbilityType::Dexterity, 1));
}

#[test]
fn add_ability_values_saturate() {
    let mut s = source();
    assert!(quest_reward_add_ability_value(&mut s, AbilityType::Charm, -20));
    assert_eq!(s.basic_stats.unwrap().charm, 0);
    assert!(quest_reward_add_ability_value(&mut s, AbilityType::Charm, 70_000));
    assert_eq!(s.basic_stats.unwrap().charm, 4464);
    assert!(quest_reward_add_ability_value(&mut s, AbilityType::BonusPoint, 3));
    assert_eq!(s.stat_points, Some(StatPoints { points: 8 }));
    assert!(quest_reward_add_ability_value(&mut s, AbilityType::Skillpoint, -5));
    assert_eq!(s.skill_points, Some(SkillPoints { points: 0 }));
    assert!(quest_reward_add_ability_value(&mut s, AbilityType::Money, -300));
    assert_eq!(s.inventory, Some(Inventory { money: Money(700) }));
    assert!(!quest_reward_add_ability_value(&mut s, AbilityType::Level, 1));
}

#[test]
fn add_then_subtract_restores_stat() {
    let mut s = source();
    assert!(quest_reward_add_ability_value(&mut s, AbilityType::Sense, 25));
    assert!(quest_reward_add_ability_value(&mut s, AbilityType::Sense, -25));
    assert_eq!(s.basic_stats.unwrap().sense, 10);
}

#[test]
fn quest_item_conditions_count_inventory_and_quest_items() {
    let mut p = parameters();
    let potion = ItemReference { item_type: ItemType::Consumable, item_number: 5 };
    p.source.items.as_mut().unwrap().slots[1] = Some(Item::Stackable(StackableItem { item: potion, quantity: 4 }));
    let mut quest = ActiveQuest::new(3, None);
    quest.items[0] = Some(Item::Stackable(StackableItem { item: quest_item(2), quantity: 2 }));
    p.quest_state.as_mut().unwrap().active_quests[0] = Some(quest);

    let four_potions = QsdConditionQuestItem {
        item: Some(potion),
        equipment_index: None,
        required_count: 4,
        operator: QsdConditionOperator::GreaterThanEqual,
    };
    let two_quest_items = QsdConditionQuestItem {
        item: Some(quest_item(2)),
        equipment_index: None,
        required_count: 2,
        operator: QsdConditionOperator::Equals,
    };
    assert!(quest_condition_quest_item(&p, &four_potions));
    // Without a selected quest, quest items count as zero.
    assert!(!quest_condition_quest_item(&p, &two_quest_items));
    p.selected_quest_index = Some(0);
    assert!(quest_condition_quest_item(&p, &two_quest_items));
    assert!(quest_condition_quest_items(&p, &vec![four_potions, two_quest_items]));
    let five_potions = QsdConditionQuestItem { required_count: 5, ..four_potions };
    assert!(!quest_condition_quest_items(&p, &vec![four_potions, five_potions]));
}

#[test]
fn quest_item_condition_on_equipment() {
    let mut p = parameters();
    let sword = ItemReference { item_type: ItemType::Weapon, item_number: 1 };
    p.source.equipment.as_mut().unwrap().equipped[6] = Some(EquipmentItem { item: sword, life: 10, gem: 0, has_socket: false, is_appraised: false });
    let wears_sword = QsdConditionQuestItem {
        item: Some(sword),
        equipment_index: Some(EquipmentIndex::WeaponRight),
        required_count: 0,
        operator: QsdConditionOperator::Equals,
    };
    assert!(quest_condition_quest_item(&p, &wears_sword));
    let empty_head = QsdConditionQuestItem { item: None, equipment_index: Some(EquipmentIndex::Head), ..wears_sword };
    assert!(quest_condition_quest_item(&p, &empty_head));
    p.source.equipment = None;
    assert!(!quest_condition_quest_item(&p, &wears_sword));
}

#[test]
fn add_item_reward_goes_to_inventory_or_selected_quest() {
    let mut p = parameters();
    let potion = ItemReference { item_type: ItemType::Consumable, item_number: 5 };
    let stack = Item::Stackable(StackableItem { item: potion, quantity: 3 });
    p.source.items.as_mut().unwrap().slots[0] = Some(stack);
    assert!(quest_reward_add_item(&mut p, potion, Some(stack)));
    assert_eq!(p.source.items.as_ref().unwrap().slots[1], Some(stack));
    assert!(!quest_reward_add_item(&mut p, potion, None));

    let token = Item::Stackable(StackableItem { item: quest_item(1), quantity: 1 });
    assert!(!quest_reward_add_item(&mut p, quest_item(1), Some(token)));
    p.quest_state.as_mut().unwrap().active_quests[2] = Some(ActiveQuest::new(3, None));
    p.selected_quest_index = Some(2);
    assert!(quest_reward_add_item(&mut p, quest_item(1), Some(token)));
    assert_eq!(p.quest_state.as_ref().unwrap().active_quests[2].as_ref().unwrap().items[0], Some(token));
}

#[test]
fn add_item_reward_with_full_inventory_still_counts() {
    let mut p = parameters();
    let potion = ItemReference { item_type: ItemType::Consumable, item_number: 5 };
    let stack = Item::Stackable(StackableItem { item: potion, quantity: 3 });
    p.source.items = Some(InventoryItems { slots: vec![Some(stack)] });
    assert!(quest_reward_add_item(&mut p, potion, Some(stack)));
    assert_eq!(p.source.items.as_ref().unwrap().slots, vec![Some(stack)]);
}

fn trigger(conditions: Vec<QsdCondition>, rewards: Vec<QsdReward>) -> QuestTrigger {
    QuestTrigger { conditions, rewards, next_trigger_name: Some("next".to_string()) }
}

#[test]
fn trigger_conditions_stop_at_first_failure() {
    let mut p = parameters();
    let t = trigger(
        vec![QsdCondition::WorldTime(0, 100), QsdCondition::QuestSwitch(0, true), QsdCondition::SelectQuest(1)],
        vec![],
    );
    assert!(!quest_trigger_check_conditions(&TestData, &mut p, &clock(), &t));
    assert_eq!(p.selected_quest_index, None);
    assert!(quest_reward_set_quest_switch(&mut p, 0, true));
    p.quest_state.as_mut().unwrap().active_quests[1] = Some(ActiveQuest::new(1, None));
    assert!(quest_trigger_check_conditions(&TestData, &mut p, &clock(), &t));
    assert_eq!(p.selected_quest_index, Some(1));
}

#[test]
fn trigger_quest_variable_and_other_conditions() {
    let mut p = parameters();
    let vars = vec![QsdConditionQuestVariable {
        variable_type: QsdVariableType::Job,
        variable_id: 1,
        operator: QsdConditionOperator::Equals,
        value: 0,
    }];
    let t = trigger(vec![QsdCondition::QuestVariable(vars)], vec![]);
    assert!(quest_trigger_check_conditions(&TestData, &mut p, &clock(), &t));
    let t = trigger(vec![QsdCondition::Other], vec![]);
    assert!(!quest_trigger_check_conditions(&TestData, &mut p, &clock(), &t));
}

#[test]
fn trigger_ability_value_conditions() {
    let mut p = parameters();
    let strength = p.source.basic_stats.map(|b| b.strength as i32).unwrap_or(0);
    let t = trigger(
        vec![QsdCondition::AbilityValue(vec![
            (AbilityType::Strength, QsdConditionOperator::Equals, strength),
            (AbilityType::Level, QsdConditionOperator::GreaterThanEqual, 20),
        ])],
        vec![],
    );
    assert!(quest_trigger_check_conditions(&TestData, &mut p, &clock(), &t));
    let t = trigger(
        vec![QsdCondition::AbilityValue(vec![(AbilityType::Level, QsdConditionOperator::GreaterThan, 20)])],
        vec![],
    );
    assert!(!quest_trigger_check_conditions(&TestData, &mut p, &clock(), &t));
}

#[test]
fn trigger_position_conditions_hold_as_measured() {
    let mut p = parameters();
    let t = trigger(vec![QsdCondition::Position(true), QsdCondition::WorldTime(0, 1000)], vec![]);
    assert!(quest_trigger_check_conditions(&TestData, &mut p, &clock(), &t));
    let t = trigger(vec![QsdCondition::Position(false)], vec![]);
    assert!(!quest_trigger_check_conditions(&TestData, &mut p, &clock(), &t));
}

#[test]
fn skill_and_teleport_rewards() {
    let mut p = parameters();
    assert_eq!(quest_reward_add_skill(&TestData, &p, 12).0, true);
    assert_eq!(quest_reward_add_skill(&TestData, &p, 150).0, false);
    assert_eq!(quest_reward_add_skill(&TestData, &p, 0).0, false);
    assert_eq!(quest_reward_add_skill(&TestData, &p, 65536 + 5).0, true);
    assert!(quest_reward_teleport(&mut p, 22));
    assert_eq!(p.teleport_zones, vec![22u16]);
    let t = trigger(vec![], vec![QsdReward::Teleport(65536 + 3), QsdReward::AddSkill(7), QsdReward::AddSkill(200)]);
    assert!(!quest_trigger_apply_rewards(&TestData, &clock(), &mut p, &t));
    assert_eq!(p.teleport_zones, vec![22u16, 3]);
}

#[test]
fn trigger_rewards_apply_in_order() {
    let mut p = parameters();
    let t = trigger(
        vec![],
        vec![
            QsdReward::Quest(QsdRewardQuestAction::Add(7)),
            QsdReward::AbilityValue(vec![
                (AbilityType::Strength, QsdRewardOperator::Add, 5),
                (AbilityType::Dexterity, QsdRewardOperator::Subtract, 3),
                (AbilityType::Charm, QsdRewardOperator::One, 0),
            ]),
            QsdReward::SetQuestSwitch(2, true),
            QsdReward::CalculatedMoney(1, 10),
            QsdReward::CalculatedExperiencePoints(1, 3),
            QsdReward::AddItem(ItemReference { item_type: ItemType::Material, item_number: 9 }, 2),
            QsdReward::CallLuaFunction,
            QsdReward::Trigger("after".to_string()),
        ],
    );
    assert!(quest_trigger_apply_rewards(&TestData, &clock(), &mut p, &t));
    let q = p.quest_state.as_ref().unwrap().active_quests[0].as_ref().unwrap();
    assert_eq!(q.quest_id, 7);
    assert_eq!(q.expire_time, Some(1100));
    let bs = p.source.basic_stats.unwrap();
    assert_eq!((bs.strength, bs.dexterity, bs.charm), (15, 7, 1));
    assert_eq!(
        p.ability_updates,
        vec![
            AbilityUpdate::RewardAdd(AbilityType::Strength, 5),
            AbilityUpdate::RewardAdd(AbilityType::Dexterity, -3),
            AbilityUpdate::RewardSet(AbilityType::Charm, 1),
        ]
    );
    assert!(p.quest_state.as_ref().unwrap().quest_switches[2]);
    // Money: base 10 times level 10, less the repeat count 0.
    assert_eq!(p.source.inventory, Some(Inventory { money: Money(1100) }));
    assert_eq!(p.reward_xp, vec![30u64]);
    assert_eq!(
        p.source.items.as_ref().unwrap().slots[0],
        Some(Item::Stackable(StackableItem {
            item: ItemReference { item_type: ItemType::Material, item_number: 9 },
            quantity: 2
        }))
    );
    assert_eq!(quest_next_trigger_name(&mut p, &t), Some("after".to_string()));
    assert_eq!(p.next_trigger_name, None);
    assert_eq!(quest_next_trigger_name(&mut p, &t), Some("next".to_string()));
}

#[test]
fn trigger_rewards_stop_at_first_failure() {
    let mut p = parameters();
    let t = trigger(vec![], vec![QsdReward::SetQuestSwitch(100, true), QsdReward::SetQuestSwitch(1, true)]);
    assert!(!quest_trigger_apply_rewards(&TestData, &clock(), &mut p, &t));
    assert!(!p.quest_state.as_ref().unwrap().quest_switches[1]);
    let t = trigger(vec![], vec![QsdReward::Other, QsdReward::SetQuestSwitch(1, true)]);
    assert!(!quest_trigger_apply_rewards(&TestData, &clock(), &mut p, &t));
    assert!(!p.quest_state.as_ref().unwrap().quest_switches[1]);
}

#[test]
fn quest_past_end_of_tick_counter_is_not_started() {
    let mut p = parameters();
    let mut late = clock();
    late.world_ticks = u64::MAX - 10;
    let t = trigger(vec![], vec![QsdReward::Quest(QsdRewardQuestAction::Add(7))]);
    assert!(!quest_trigger_apply_rewards(&TestData, &late, &mut p, &t));
    assert!(p.quest_state.as_ref().unwrap().active_quests[0].is_none());
}

#[test]
fn run_trigger_applies_rewards_only_when_conditions_hold() {
    let mut p = parameters();
    let t = trigger(vec![QsdCondition::WorldTime(60, 70)], vec![QsdReward::SetQuestSwitch(1, true)]);
    assert!(!quest_run_trigger(&TestData, &clock(), &mut p, &t));
    assert!(!p.quest_state.as_ref().unwrap().quest_switches[1]);
    let t = trigger(vec![QsdCondition::WorldTime(0, 70)], vec![QsdReward::SetQuestSwitch(1, true)]);
    assert!(quest_run_trigger(&TestData, &clock(), &mut p, &t));
    assert!(p.quest_state.as_ref().unwrap().quest_switches[1]);
}

#[test]
fn calculated_item_rewards() {
    let mut p = parameters();
    let sword = ItemReference { item_type: ItemType::Weapon, item_number: 3 };
    let helmet = ItemReference { item_type: ItemType::Head, item_number: 4 };
    let armour = ItemReference { item_type: ItemType::Body, item_number: 5 };
    let ruby = ItemReference { item_type: ItemType::Gem, item_number: 120 };
    let big_gem = ItemReference { item_type: ItemType::Gem, item_number: 300 };
    let potion = ItemReference { item_type: ItemType::Consumable, item_number: 8 };
    let t = trigger(
        vec![],
        vec![
            QsdReward::CalculatedItem(0, 2, potion, None),
            QsdReward::CalculatedItem(0, 1, sword, Some(ruby)),
            QsdReward::CalculatedItem(0, 1, sword, Some(big_gem)),
        ],
    );
    p.source.items = Some(InventoryItems { slots: vec![None; 5] });
    assert!(quest_trigger_apply_rewards(&TestData, &clock(), &mut p, &t));
    let slots = &p.source.items.as_ref().unwrap().slots;
    // Two per level at level ten.
    assert_eq!(slots[0], Some(Item::Stackable(StackableItem { item: potion, quantity: 20 })));
    assert_eq!(
        slots[1],
        Some(Item::Equipment(EquipmentItem { item: sword, life: 1000, gem: 120, has_socket: false, is_appraised: true }))
    );
    assert_eq!(
        slots[2],
        Some(Item::Equipment(EquipmentItem { item: sword, life: 1000, gem: 0, has_socket: true, is_appraised: true }))
    );

    let t = trigger(
        vec![],
        vec![
            QsdReward::CalculatedItem(0, 1, helmet, None),
            QsdReward::CalculatedItem(0, 1, armour, None),
            QsdReward::CalculatedItem(0, 0, potion, None),
        ],
    );
    assert!(quest_trigger_apply_rewards(&TestData, &clock(), &mut p, &t));
    let slots = &p.source.items.as_ref().unwrap().slots;
    assert_eq!(
        slots[3],
        Some(Item::Equipment(EquipmentItem { item: helmet, life: 1000, gem: 0, has_socket: true, is_appraised: true }))
    );
    assert_eq!(
        slots[4],
        Some(Item::Equipment(EquipmentItem { item: armour, life: 1000, gem: 0, has_socket: false, is_appraised: false }))
    );
    // No room is left; the reward still counts.
    let t = trigger(vec![], vec![QsdReward::CalculatedItem(0, 1, sword, None)]);
    assert!(quest_trigger_apply_rewards(&TestData, &clock(), &mut p, &t));
}

#[test]
fn checking_conditions_only_selects_quests() {
    let mut p = parameters();
    p.quest_state.as_mut().unwrap().active_quests[1] = Some(ActiveQuest::new(1, None));
    let before = p.clone();
    let t = trigger(
        vec![QsdCondition::SelectQuest(1), QsdCondition::QuestSwitch(0, true), QsdCondition::Position(true)],
        vec![],
    );
    assert!(!quest_trigger_check_conditions(&TestData, &mut p, &clock(), &t));
    assert_eq!(p.selected_quest_index, Some(1));
    p.selected_quest_index = before.selected_quest_index;
    assert_eq!(format!("{:?}", p), format!("{:?}", before));
}

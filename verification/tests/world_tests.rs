use rose_offline::ai::{
    ai_action_attack_nearby_entity_by_stat, ai_action_attack_owner_target, ai_action_kill_self_damage,
    ai_action_nearby_allies_attack_target, ai_action_set_variable, ai_condition_damage, ai_condition_has_no_owner,
    ai_condition_health_percent, ai_condition_is_attacker_current_target, ai_condition_is_zone_daytime,
    ai_condition_no_target_and_compare_attacker_ability_value, ai_condition_random, ai_condition_server_channel_number,
    ai_condition_variable, ai_condition_zone_time, get_aip_ability_value, AiAbilityValues, AiCandidate, AipAbilityType,
    AipAttackNearbyStat, AipDamageType, AipNearbyAlly, AipVariableType, AllyCandidate, ZoneDayTimes,
};
use rose_offline::bot::{bot_can_attack, bot_can_pickup, bot_farm, bot_idle_tick, bot_party_invites, bot_pickup, BotAction, BotAi, BotAiState, ItemDropQuery, TeamQuery};
use rose_offline::clan::{
    clan_create_check, clan_create_refund, clan_member_list, founded_clan_storage, clan_members_to_notify, new_clan, Clan, ClanCreateError, ClanMark, ClanMember,
    ClanMemberPosition, ClanStorage, OnlineCharacter,
};
use rose_offline::damage::{death_xp_recipients, killer_drop, npc_death_step, DeathStep, killer_level_difference, SourceLookup, XpRecipient, apply_damage_to_health, apply_pending_damage_to_health, DamageOutcome, DamageSource, DamageSources};
use rose_offline::game_server::{logout_return_clients, revive_request, ReviveRequestType, drive_toggle, drop_item_quantity, drop_money, increase_basic_stat, run_toggle, sit_toggle, BasicStatType, MoveMode};
use rose_offline::loot::{distribute_party_money, next_acquirer, party_money_share, pickup_dropped_item, pickup_route, DroppedItem, PickupContent, PickupError, PickupRoute};
use rose_offline::items::{InventoryItems, Item, ItemReference, ItemType, StackableItem};
use rose_offline::operators::{compare_aip_value, quest_condition_operator, AipOperatorType, AipResultOperator, QsdConditionOperator};
use rose_offline::party::PartyMember;
use rose_offline::spawn::MonsterSpawnPoint;
use rose_offline::stats::{add_value_u16, add_value_u32, BasicStats, Inventory, Money, StatPoints};
use rose_offline::storage::{bank_load_result, get_bank_path, get_character_path, get_clan_path, BankStorage, BankStorageError, CharacterStorage};
use rose_offline::visibility::update_visibility;
use rose_offline::xp::{level_command_xp, level_up_triggers, reward_xp, ExperienceState, LevelTable};

fn stats() -> BasicStats {
    BasicStats { strength: 10, dexterity: 11, intelligence: 12, concentration: 13, charm: 14, sense: 15 }
}

#[test]
fn operators_compare() {
    assert!(quest_condition_operator(QsdConditionOperator::GreaterThanEqual, 5, 5));
    assert!(!quest_condition_operator(QsdConditionOperator::LessThan, 5, 5));
    assert!(compare_aip_value(AipOperatorType::NotEqual, 1, 2));
    assert!(!compare_aip_value(AipOperatorType::Equals, 1, 2));
}

#[test]
fn values_saturate() {
    assert_eq!(add_value_u16(10, -20), 0);
    assert_eq!(add_value_u16(65530, 10), 65535);
    assert_eq!(add_value_u16(10, 5), 15);
    assert_eq!(add_value_u32(3, -1), 2);
    let mut inventory = Inventory { money: Money(i64::MAX) };
    assert_eq!(inventory.try_add_money(Money(1)), Err(Money(1)));
    assert_eq!(inventory.try_take_money(Money(5)), Ok(Money(5)));
    assert_eq!(inventory.money, Money(i64::MAX - 5));
}

#[test]
fn movement_toggles_and_money_drop() {
    assert_eq!(run_toggle(MoveMode::Walk), Some(MoveMode::Run));
    assert_eq!(run_toggle(MoveMode::Drive), None);
    assert_eq!(drive_toggle(MoveMode::Walk), MoveMode::Drive);
    assert_eq!(drive_toggle(MoveMode::Drive), MoveMode::Run);
    assert!(sit_toggle(false));
    let mut inventory = Inventory { money: Money(100) };
    assert_eq!(drop_money(&mut inventory, 30), Some(Money(30)));
    assert_eq!(inventory.money, Money(70));
    assert_eq!(drop_money(&mut inventory, 500), Some(Money(70)));
    assert_eq!(inventory.money, Money(0));
    assert_eq!(drop_money(&mut inventory, 5), None);
    assert_eq!(drop_item_quantity(7, Some(3)), 3);
    assert_eq!(drop_item_quantity(2, Some(3)), 2);
    assert_eq!(drop_item_quantity(2, None), 0);
}

#[test]
fn stat_points_buy_basic_stats() {
    let mut basic = stats();
    let mut points = StatPoints { points: 10 };
    assert_eq!(increase_basic_stat(&mut basic, &mut points, BasicStatType::Charm, Some(4)), Some(15));
    assert_eq!(points.points, 6);
    assert_eq!(increase_basic_stat(&mut basic, &mut points, BasicStatType::Charm, Some(6)), None);
    assert_eq!(increase_basic_stat(&mut basic, &mut points, BasicStatType::Charm, None), None);
    assert_eq!(basic.charm, 15);
}

#[test]
fn storage_paths_and_writes() {
    let expected = std::path::Path::new("data/characters").join("Bob.json").to_string_lossy().into_owned();
    assert_eq!(get_character_path("data/characters", "Bob"), expected);
    assert!(get_bank_path("banks", "acc").ends_with("acc.json"));
    assert!(get_clan_path("clans", "Knights").ends_with("Knights.json"));
    let character = CharacterStorage { name: "Bob".to_string(), json: "{}".to_string() };
    let create = character.try_create("data/characters");
    assert!(!create.allow_overwrite);
    assert_eq!(create.path, expected);
    assert_eq!(create.contents, "{}");
    assert!(character.save("data/characters").allow_overwrite);
}

#[test]
fn clan_creation_checks_in_order() {
    let mut inventory = Inventory { money: Money(2_000_000) };
    assert_eq!(clan_create_check(true, 50, false, &mut inventory), Err(ClanCreateError::Failed));
    assert_eq!(clan_create_check(false, 29, false, &mut inventory), Err(ClanCreateError::UnmetCondition));
    assert_eq!(clan_create_check(false, 30, true, &mut inventory), Err(ClanCreateError::NameExists));
    assert_eq!(clan_create_check(false, 30, false, &mut inventory), Ok(Money(1_000_000)));
    assert_eq!(inventory.money, Money(1_000_000));
    let mut poor = Inventory { money: Money(999_999) };
    assert_eq!(clan_create_check(false, 30, false, &mut poor), Err(ClanCreateError::UnmetCondition));
    assert_eq!(poor.money, Money(999_999));
}

#[test]
fn clan_values_change_within_range() {
    let storage = ClanStorage::new("K".to_string(), "d".to_string(), ClanMark::Custom { crc16: 1 });
    assert_eq!(storage.level, 1);
    let mut clan: Clan = new_clan(7, storage, 42);
    assert!(!clan.add_level(-1));
    assert!(clan.add_level(2));
    assert_eq!(clan.level, 3);
    assert!(clan.add_money(-5));
    assert_eq!(clan.money, Money(-5));
    assert!(!clan.add_points(-1));
    assert!(clan.add_points(10));
    assert!(clan.add_points(-4));
    assert_eq!(clan.points, 6);
    assert!(clan.add_skill(3));
    assert!(!clan.add_skill(3));
    assert!(clan.add_skill(4));
    assert!(clan.remove_skill(3));
    assert!(!clan.remove_skill(3));
    assert_eq!(clan.skills, vec![4]);
}

#[test]
fn clan_members_disconnect_and_list() {
    let storage = ClanStorage::new("K".to_string(), "d".to_string(), ClanMark::Premade { background: 1, foreground: 2 });
    let mut clan = new_clan(7, storage, 42);
    clan.members.push(ClanMember::Online { entity: 43, position: ClanMemberPosition::Junior, contribution: 5 });
    assert_eq!(clan_members_to_notify(&clan.members, 42), vec![43]);
    assert!(clan.member_disconnect(43, "Al".to_string(), 12, 3));
    assert!(!clan.member_disconnect(43, "Al".to_string(), 12, 3));
    let characters = vec![OnlineCharacter { entity: 42, name: "Master".to_string(), level: 80, job: 111 }];
    let list = clan_member_list(&clan.members, &characters);
    assert_eq!(list.len(), 2);
    assert_eq!(list[0].name, "Master");
    assert!(list[0].online);
    assert_eq!(list[1].name, "Al");
    assert!(!list[1].online);
    assert_eq!(list[1].contribution, 5);
}

#[test]
fn loot_routes_and_shares() {
    assert_eq!(pickup_route(1, Some(9), true, Some(9), Some(2)), PickupRoute::ByParty);
    assert_eq!(pickup_route(1, Some(9), false, Some(9), Some(2)), PickupRoute::Denied);
    assert_eq!(pickup_route(1, None, true, None, None), PickupRoute::ForSelf);
    assert_eq!(pickup_route(1, None, true, None, Some(1)), PickupRoute::ForSelf);
    assert_eq!(party_money_share(Money(100), 3), Money(33));
    assert_eq!(party_money_share(Money(-7), 2), Money(-3));
    assert_eq!(party_money_share(Money(10), 1), Money(10));
    let members = vec![PartyMember::Online(1), PartyMember::Offline(2, "x".to_string()), PartyMember::Online(3)];
    let mut order = 0usize;
    assert_eq!(next_acquirer(&members, &mut order), 3);
    assert_eq!(order, 2);
    assert_eq!(next_acquirer(&members, &mut order), 1);
    assert_eq!(order, 0);
}

#[test]
fn pickup_needs_permission_and_room() {
    let potion = Item::Stackable(StackableItem { item: ItemReference { item_type: ItemType::Consumable, item_number: 1 }, quantity: 2 });
    let mut items = InventoryItems { slots: vec![None] };
    let mut inventory = Inventory { money: Money(0) };
    let mut dropped = Some(DroppedItem::Item(potion));
    assert_eq!(pickup_dropped_item(1, Some(2), &mut items, &mut inventory, &mut dropped), Err(PickupError::NoPermission));
    assert_eq!(pickup_dropped_item(1, Some(1), &mut items, &mut inventory, &mut dropped), Ok(PickupContent::Item(0, potion)));
    assert_eq!(dropped, None);
    assert_eq!(pickup_dropped_item(1, None, &mut items, &mut inventory, &mut dropped), Err(PickupError::NotExist));
    let mut more = Some(DroppedItem::Item(potion));
    assert_eq!(pickup_dropped_item(1, None, &mut items, &mut inventory, &mut more), Err(PickupError::InventoryFull));
    let mut money = Some(DroppedItem::Money(Money(40)));
    assert_eq!(pickup_dropped_item(1, None, &mut items, &mut inventory, &mut money), Ok(PickupContent::Money(Money(40))));
    assert_eq!(inventory.money, Money(40));
}

#[test]
fn visibility_lists_changes() {
    let mut seen = vec![true, true, false, false];
    let visible = vec![true, false, true, false];
    let (spawn, remove) = update_visibility(&mut seen, &visible, 0);
    assert_eq!(spawn, vec![2]);
    assert_eq!(remove, vec![1]);
    assert_eq!(seen, visible);
    let (spawn, remove) = update_visibility(&mut seen, &visible, 0);
    assert!(spawn.is_empty() && remove.is_empty());
    let mut unseen = vec![false, false];
    let (spawn, _) = update_visibility(&mut unseen, &vec![true, true], 1);
    assert_eq!(spawn, vec![0]);
}

fn spawn_point(alive: usize, tactics: usize) -> MonsterSpawnPoint {
    MonsterSpawnPoint {
        time_since_last_check: 0,
        interval: 10,
        num_alive_monsters: alive,
        limit_count: 10,
        current_tactics_value: tactics,
        tactic_points: 5,
        basic_spawns: vec![(101, 3), (102, 2), (103, 1), (104, 4), (105, 5)],
        tactic_spawns: vec![(201, 1), (202, 2)],
    }
}

#[test]
fn monster_spawn_plans() {
    let mut point = spawn_point(0, 0);
    assert!(point.tick(5).is_empty());
    assert_eq!(point.time_since_last_check, 5);
    // regen = (20 - 0) * 0 * 50 / 50 = 0: basic[0], tactics + 12
    assert_eq!(point.tick(5), vec![(101, 3)]);
    assert_eq!(point.current_tactics_value, 12);
    assert_eq!(point.time_since_last_check, 0);
    // regen = 20 * 12 * 50 / 50 = 240: basic[4], tactics[0] + 1, tactics[1]; tactics set to 7
    assert_eq!(point.tick(10), vec![(105, 5), (201, 2), (202, 2)]);
    assert_eq!(point.current_tactics_value, 7);
    // regen = (20 - 9) * 2 * 50 / 50 = 22: basic[2]
    let mut busy = spawn_point(9, 2);
    assert_eq!(busy.tick(10), vec![(103, 1)]);
    assert_eq!(busy.current_tactics_value, 14);
    let mut full = spawn_point(10, 3);
    assert!(full.tick(10).is_empty());
    assert_eq!(full.current_tactics_value, 2);
    let mut capped = spawn_point(0, 500);
    capped.tactic_points = 1000;
    // regen = 20 * 500 * 50 / 10000 = 50: basic[1], basic[2] - 2, tactics capped at 500
    assert_eq!(capped.tick(10), vec![(102, 2), (103, 0)]);
    let mut more = spawn_point(0, 500);
    more.tactic_points = 1000;
    more.basic_spawns[2] = (103, 5);
    assert_eq!(more.tick(10), vec![(102, 2), (103, 3)]);
    assert_eq!(capped.current_tactics_value, 500);
    capped.record_spawned();
    assert_eq!(capped.num_alive_monsters, 1);
    capped.record_death();
    capped.record_death();
    assert_eq!(capped.num_alive_monsters, 0);
}

#[test]
fn ai_conditions() {
    let abilities = AiAbilityValues { level: 5, attack: 6, defence: 7, resistance: 8, charm: 9 };
    assert_eq!(get_aip_ability_value(&abilities, 40, AipAbilityType::HealthPoints), 40);
    assert_eq!(get_aip_ability_value(&abilities, 40, AipAbilityType::Charm), 9);
    assert!(!ai_condition_damage(Some(50), AipDamageType::Given, AipOperatorType::GreaterThan, 1));
    assert!(ai_condition_damage(None, AipDamageType::Received, AipOperatorType::Equals, 0));
    assert!(ai_condition_health_percent(30, 120, AipOperatorType::Equals, 25));
    assert!(ai_condition_health_percent(1, 3, AipOperatorType::Equals, 33));
    assert!(ai_condition_has_no_owner(None, 1));
    assert!(!ai_condition_has_no_owner(Some(1), 1));
    assert!(ai_condition_is_attacker_current_target(Some(4), Some(4)));
    assert!(!ai_condition_is_attacker_current_target(None, None));
    assert!(!ai_condition_no_target_and_compare_attacker_ability_value(true, Some((abilities, 1)), AipOperatorType::Equals, AipAbilityType::Level, 5));
    assert!(ai_condition_no_target_and_compare_attacker_ability_value(false, Some((abilities, 1)), AipOperatorType::Equals, AipAbilityType::Level, 5));
    assert!(ai_condition_random(AipOperatorType::LessThan, 0, 10, 10));
    assert!(!ai_condition_random(AipOperatorType::GreaterThanEqual, 0, 10, 10));
    assert!(ai_condition_zone_time(250, Some(100), 50, 50));
    assert!(ai_condition_zone_time(250, None, 250, 250));
    let times = ZoneDayTimes { day_cycle: 160, day_time: 20, evening_time: 110, night_time: 130 };
    assert!(ai_condition_is_zone_daytime(10, Some(times), true));
    assert!(ai_condition_is_zone_daytime(130, Some(times), false));
    assert!(ai_condition_is_zone_daytime(0, None, true));
    assert!(ai_condition_server_channel_number(1, 3));
    assert!(!ai_condition_server_channel_number(2, 3));
    let variables = vec![3, 4];
    assert!(ai_condition_variable(AipVariableType::Ai, Some(&variables), 1, AipOperatorType::Equals, 4));
    assert!(ai_condition_variable(AipVariableType::Ai, Some(&variables), 5, AipOperatorType::Equals, 0));
    assert!(ai_condition_variable(AipVariableType::World, Some(&variables), 0, AipOperatorType::Equals, 0));
}

#[test]
fn ai_actions() {
    let mut variables = vec![490, 5];
    ai_action_set_variable(&mut variables, AipVariableType::LocalNpcObject, 0, AipResultOperator::Add, 20);
    assert_eq!(variables[0], 500);
    ai_action_set_variable(&mut variables, AipVariableType::LocalNpcObject, 1, AipResultOperator::Subtract, 9);
    assert_eq!(variables[1], 0);
    ai_action_set_variable(&mut variables, AipVariableType::Ai, 1, AipResultOperator::Subtract, 9);
    assert_eq!(variables[1], -9);
    ai_action_set_variable(&mut variables, AipVariableType::Ai, 0, AipResultOperator::Assign, 1);
    assert_eq!(variables[0], 1);
    ai_action_set_variable(&mut variables, AipVariableType::Economy, 0, AipResultOperator::Assign, 7);
    assert_eq!(variables, vec![1, -9]);
    assert!(ai_action_attack_owner_target(Some(3), 2, 1));
    assert!(!ai_action_attack_owner_target(Some(1), 2, 1));
    let candidates = vec![
        AiCandidate { entity: 10, team: 2, value: 5 },
        AiCandidate { entity: 11, team: 3, value: 7 },
        AiCandidate { entity: 12, team: 4, value: 3 },
        AiCandidate { entity: 13, team: 4, value: 3 },
        AiCandidate { entity: 14, team: 1, value: 1 },
    ];
    assert_eq!(ai_action_attack_nearby_entity_by_stat(&candidates, 2, 1, AipAttackNearbyStat::Lowest), Some(12));
    assert_eq!(ai_action_attack_nearby_entity_by_stat(&candidates, 2, 1, AipAttackNearbyStat::Highest), Some(11));
    assert_eq!(ai_action_attack_nearby_entity_by_stat(&candidates[..1].to_vec(), 2, 1, AipAttackNearbyStat::Highest), None);
    assert_eq!(ai_action_kill_self_damage(41), 42);
}

#[test]
fn ai_allies_join_up_to_limit() {
    let ally = |entity: u64, npc: u16| AllyCandidate { entity, found: true, team: 5, has_target: false, npc_id: Some(npc) };
    let candidates = vec![
        ally(1, 7),
        AllyCandidate { entity: 2, found: true, team: 6, has_target: false, npc_id: Some(7) },
        ally(3, 8),
        ally(4, 7),
        ally(5, 7),
    ];
    assert_eq!(ai_action_nearby_allies_attack_target(&candidates, 1, true, 5, 7, AipNearbyAlly::Ally, None), vec![3, 4, 5]);
    assert_eq!(ai_action_nearby_allies_attack_target(&candidates, 1, true, 5, 7, AipNearbyAlly::WithSameNpcId, Some(1)), vec![4]);
    assert_eq!(ai_action_nearby_allies_attack_target(&candidates, 9, true, 5, 7, AipNearbyAlly::WithNpcId(8), None), vec![3]);
    assert!(ai_action_nearby_allies_attack_target(&candidates, 9, false, 5, 7, AipNearbyAlly::Ally, None).is_empty());
    // an entity that could not be read still counts towards a limit of zero
    let unreadable = vec![AllyCandidate { entity: 8, found: false, team: 0, has_target: false, npc_id: None }, ally(3, 8)];
    assert!(ai_action_nearby_allies_attack_target(&unreadable, 9, true, 5, 7, AipNearbyAlly::Ally, Some(0)).is_empty());
}

#[test]
fn damage_lowers_health_and_records_sources() {
    let mut hp = 50;
    assert_eq!(apply_damage_to_health(&mut hp, 20), DamageOutcome::Applied { killed: false });
    assert_eq!(hp, 30);
    assert_eq!(apply_damage_to_health(&mut hp, 40), DamageOutcome::Applied { killed: true });
    assert_eq!(hp, 0);
    assert_eq!(apply_damage_to_health(&mut hp, 1), DamageOutcome::AlreadyDead);
    let mut uhp = 5u32;
    assert_eq!(apply_pending_damage_to_health(&mut uhp, 9), DamageOutcome::Applied { killed: true });
    let mut sources = DamageSources { damage_sources: Vec::new(), max_damage_sources: 2 };
    sources.record_damage(1, 10, 100);
    sources.record_damage(2, 5, 110);
    sources.record_damage(1, 3, 120);
    assert_eq!(sources.damage_sources[0], DamageSource { entity: 1, total_damage: 13, first_damage_time: 100, last_damage_time: 120 });
    // full: the source hit longest ago (entity 2) makes room
    sources.record_damage(3, 7, 130);
    assert_eq!(sources.damage_sources.len(), 2);
    assert_eq!(sources.damage_sources[0].entity, 1);
    assert_eq!(sources.damage_sources[1], DamageSource { entity: 3, total_damage: 7, first_damage_time: 130, last_damage_time: 130 });
    // nobody hit before now: the last one makes room
    let mut same_time = DamageSources { damage_sources: Vec::new(), max_damage_sources: 1 };
    same_time.record_damage(1, 1, 5);
    same_time.record_damage(2, 1, 5);
    assert_eq!(same_time.damage_sources.len(), 1);
    assert_eq!(same_time.damage_sources[0].entity, 2);
}

#[test]
fn experience_levels_up_with_rewards() {
    let table = LevelTable { require_xp: vec![10, 10, 20, 30], skill_points: vec![0, 1, 1, 2, 2], stat_points: vec![0, 5, 5, 5, 5] };
    let mut state = ExperienceState { level: 1, xp: 5, stamina: 4990, skill_points: 0, stat_points: 0 };
    assert!(reward_xp(&mut state, &table, 30, 20, 5000));
    assert_eq!(state.level, 3);
    assert_eq!(state.xp, 5);
    assert_eq!(state.skill_points, 3);
    assert_eq!(state.stat_points, 10);
    assert_eq!(state.stamina, 5000);
    assert!(!reward_xp(&mut state, &table, 10, 0, 5000));
    assert_eq!(state.xp, 15);
    // levels past the table are not reached
    assert!(reward_xp(&mut state, &table, 1000, 0, 5000));
    assert_eq!(state.level, 4);
    assert_eq!(state.xp, 985);
    assert_eq!(level_up_triggers(1, 3), vec!["levelup_2".to_string(), "levelup_3".to_string()]);
    assert_eq!(level_up_triggers(9, 12)[2], "levelup_12");
    assert!(level_up_triggers(3, 3).is_empty());
}

#[test]
fn bots_decide() {
    let mut ai = BotAi { state: BotAiState::Farm, time_since_last_idle_check: 0, messages: vec![5, 6] };
    assert_eq!(bot_party_invites(&mut ai, false), vec![5, 6]);
    assert!(ai.messages.is_empty());
    assert!(!bot_idle_tick(&mut ai, 400, 1000));
    assert!(bot_idle_tick(&mut ai, 700, 1000));
    assert_eq!(ai.time_since_last_idle_check, 100);
    let action = bot_farm(&mut ai, &vec![31, 32], false, &vec![40], 1000);
    match action {
        BotAction::MoveToItem(t) => {
            assert!(t == 31 || t == 32);
            assert_eq!(ai.state, BotAiState::PickupItem(t));
            assert_eq!(bot_pickup(&mut ai, t, 1000), BotAction::PickupItem(t));
            assert_eq!(ai.state, BotAiState::Farm);
        }
        other => panic!("unexpected {:?}", other),
    }
    assert_eq!(bot_farm(&mut ai, &vec![], true, &vec![40], 1000), BotAction::FollowOwner);
    assert_eq!(bot_farm(&mut ai, &vec![], false, &vec![40], 1000), BotAction::Attack(40));
    assert_eq!(bot_farm(&mut ai, &vec![], false, &vec![], 1000), BotAction::Nothing);
    let drop = ItemDropQuery { drop: Some(DroppedItem::Money(Money(3))), owner: Some(9) };
    assert!(!bot_can_pickup(&drop, 1, true));
    assert!(bot_can_pickup(&ItemDropQuery { drop: Some(DroppedItem::Money(Money(3))), owner: None }, 1, false));
    assert!(bot_can_attack(&TeamQuery { zone: 1, team: 100, npc: Some(3) }, false, 2, 1));
    assert!(!bot_can_attack(&TeamQuery { zone: 1, team: 2, npc: None }, false, 2, 1));
}

#[test]
fn bank_load_result_follows_the_disk_answer() {
    assert_eq!(bank_load_result("data/bank/a.json".to_string(), true), Ok("data/bank/a.json".to_string()));
    assert_eq!(bank_load_result("data/bank/a.json".to_string(), false), Err(BankStorageError::NotFound));
}

#[test]
fn party_money_is_split_evenly() {
    let share = party_money_share(Money(90), 3);
    let mut inventories = vec![Inventory { money: Money(5) }, Inventory { money: Money(i64::MAX - 10) }, Inventory { money: Money(0) }];
    let took = distribute_party_money(&mut inventories, share);
    assert_eq!(took, vec![true, false, true]);
    assert_eq!(inventories[0].money, Money(35));
    assert_eq!(inventories[1].money, Money(i64::MAX - 10));
    assert_eq!(inventories[2].money, Money(30));
}

#[test]
fn clan_founding_record_and_refund() {
    let mark = ClanMark::Premade { background: 1, foreground: 2 };
    let stored = founded_clan_storage("Knights".to_string(), "desc".to_string(), mark, "Arthur".to_string());
    assert_eq!(stored.members.len(), 1);
    assert_eq!(stored.members[0].name, "Arthur");
    assert_eq!(stored.members[0].position, ClanMemberPosition::Master);
    assert_eq!(stored.members[0].contribution, 0);
    assert_eq!(stored.money, Money(0));
    assert_eq!(stored.level, 1);

    let mut inventory = Inventory { money: Money(1_500_000) };
    let price = clan_create_check(false, 30, false, &mut inventory).unwrap();
    assert_eq!(inventory.money, Money(500_000));
    clan_create_refund(&mut inventory, price);
    assert_eq!(inventory.money, Money(1_500_000));

    let mut very_poor = Inventory { money: Money(i64::MIN) };
    assert_eq!(clan_create_check(false, 30, false, &mut very_poor), Err(ClanCreateError::UnmetCondition));
    assert_eq!(very_poor.money, Money(i64::MIN));
}

#[test]
fn bank_storage_records() {
    let bank = BankStorage::new();
    assert!(bank.slots.is_empty());
    let write = bank.create("data/bank", "acc", "{}".to_string());
    assert_eq!(write.path, get_bank_path("data/bank", "acc"));
    assert_eq!(write.contents, "{}");
    assert!(!write.allow_overwrite);
    assert!(bank.save("data/bank", "acc", "{}".to_string()).allow_overwrite);
    let stored = BankStorage { slots: vec![None, Some(Item::Stackable(StackableItem { item: ItemReference { item_type: ItemType::Material, item_number: 4 }, quantity: 2 }))] };
    let in_play = stored.clone().into_bank();
    assert_eq!(in_play.items.slots, stored.slots);
    assert!(!in_play.sent_to_client);
}

#[test]
fn level_command_experience() {
    let table = LevelTable { require_xp: vec![10, 20, 30], skill_points: vec![0, 1, 1, 1], stat_points: vec![0, 2, 2, 2] };
    assert_eq!(level_command_xp(&table, 0, 2), 30);
    assert_eq!(level_command_xp(&table, 1, 3), 50);
    assert_eq!(level_command_xp(&table, 2, 1), 0);
    assert_eq!(level_command_xp(&table, 2, 2), 0);
}

#[test]
fn npc_death_rewards() {
    let sources = vec![
        DamageSource { entity: 1, total_damage: 50, first_damage_time: 0, last_damage_time: 900 },
        DamageSource { entity: 2, total_damage: 30, first_damage_time: 0, last_damage_time: 100 },
        DamageSource { entity: 3, total_damage: 20, first_damage_time: 0, last_damage_time: 950 },
        DamageSource { entity: 4, total_damage: 10, first_damage_time: 0, last_damage_time: 990 },
    ];
    let lookups = vec![
        Some(SourceLookup { level: 10, owner: None }),
        Some(SourceLookup { level: 20, owner: None }),
        Some(SourceLookup { level: 5, owner: Some((30, 40)) }),
        None,
    ];
    assert_eq!(
        death_xp_recipients(&sources, &lookups, 1000, 500),
        vec![
            XpRecipient { entity: 1, level: 10, total_damage: 50 },
            XpRecipient { entity: 30, level: 40, total_damage: 20 },
        ]
    );
    assert_eq!(killer_level_difference(10, None, 15), -5);
    assert_eq!(killer_level_difference(10, Some(30), 15), 15);
}

#[test]
fn clan_skill_lists_stay_free_of_repeats() {
    let mut clan = new_clan(1, ClanStorage::new("K".to_string(), "d".to_string(), ClanMark::Custom { crc16: 1 }), 9);
    assert!(clan.add_skill(2));
    assert!(clan.add_skill(3));
    assert!(!clan.add_skill(2));
    assert_eq!(clan.skills, vec![2, 3]);
    assert!(clan.remove_skill(2));
    assert!(!clan.remove_skill(2));
    assert_eq!(clan.skills, vec![3]);
}

#[test]
fn full_damage_lists_evict_the_oldest_hit() {
    let mut sources = DamageSources {
        damage_sources: vec![
            DamageSource { entity: 1, total_damage: 5, first_damage_time: 0, last_damage_time: 8 },
            DamageSource { entity: 2, total_damage: 5, first_damage_time: 0, last_damage_time: 3 },
            DamageSource { entity: 3, total_damage: 5, first_damage_time: 0, last_damage_time: 6 },
        ],
        max_damage_sources: 3,
    };
    sources.record_damage(4, 7, 10);
    let entities: Vec<u64> = sources.damage_sources.iter().map(|s| s.entity).collect();
    assert_eq!(entities, vec![1, 3, 4]);
}

#[test]
fn npc_death_is_handled_once() {
    let mut has_run = false;
    assert_eq!(npc_death_step(&mut has_run, 10, Some(100)), DeathStep { handle_death: true, remove_entity: false });
    assert!(has_run);
    assert_eq!(npc_death_step(&mut has_run, 100, Some(100)), DeathStep { handle_death: false, remove_entity: true });
    assert_eq!(npc_death_step(&mut has_run, 500, None), DeathStep { handle_death: false, remove_entity: false });
    assert_eq!(killer_drop(Some((8, 30, Some(50))), 40), Some((8, 10)));
    assert_eq!(killer_drop(Some((8, 30, None)), 40), Some((8, -10)));
    assert_eq!(killer_drop(None, 40), None);
}

#[test]
fn revive_and_logout_rules() {
    assert_eq!(revive_request(true, ReviveRequestType::SavePosition), Some(ReviveRequestType::SavePosition));
    assert_eq!(revive_request(false, ReviveRequestType::RevivePosition), None);
    let world_clients = vec![(1, 7), (2, 8), (3, 7)];
    assert_eq!(logout_return_clients(&world_clients, 7, true), vec![1, 3]);
    assert_eq!(logout_return_clients(&world_clients, 7, false), Vec::<u64>::new());
}

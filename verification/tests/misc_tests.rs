use rose_offline::ai::{
    ai_condition_attacker_and_target_ability_value, ai_condition_count_nearby_entities,
    ai_condition_has_status_effect, ai_condition_month_day_time, ai_condition_owner_has_target,
    ai_condition_source_ability_value, ai_condition_target_ability_value, ai_condition_week_day_time,
    ai_action_use_skill, monster_spawn_state_zone, monster_spawns_enabled, AiAbilityValues, AipAbilityType,
    AipHaveStatusType, AipMonsterSpawnState, AipSkillTarget, NearbyEntity, NearbySearch, NpcSkillCommand,
    StatusEffectSlot,
};
use rose_offline::bank::transfer_item;
use rose_offline::bot::{bot_farm_decide, bot_snowball_decide, bot_snowball_fight, BotAction, BotAi, BotAiState};
use rose_offline::command_line::{arg, command_help_lines, parse_command, CommandArg, CommandLineError, CommandSpec};
use rose_offline::items::{
    find_item_slot, held_item_quantity, EquipmentItem, InventoryItems, Item, ItemReference, ItemType, StackableItem,
};
use rose_offline::loot::count_online_members;
use rose_offline::operators::AipOperatorType;
use rose_offline::party::{party_message_recipients, PartyMember, PartyMembershipQuery, PartyWorld};
use rose_offline::quest::LocalTime;

fn table() -> Vec<CommandSpec> {
    vec![
        CommandSpec { name: "help".to_string(), args: vec![] },
        CommandSpec { name: "mm".to_string(), args: vec![arg("zone", true), arg("x", false), arg("y", false)] },
        CommandSpec {
            name: "speed".to_string(),
            args: vec![CommandArg {
                name: "mode".to_string(),
                required: true,
                choices: vec!["fast".to_string(), "slow".to_string()],
            }],
        },
    ]
}

fn words(text: &[&str]) -> Vec<String> {
    text.iter().map(|w| w.to_string()).collect()
}

#[test]
fn command_line_reads_command_and_arguments() {
    let t = table();
    assert_eq!(parse_command(&t, &words(&["mm", "2", "5"])), Ok((1, words(&["2", "5"]))));
    assert_eq!(parse_command(&t, &words(&["help"])), Ok((0, vec![])));
    assert_eq!(parse_command(&t, &words(&["mm", "--", "-v"])), Ok((1, words(&["-v"]))));
    assert_eq!(parse_command(&t, &words(&["mm", "1", "--", "--"])), Ok((1, words(&["1", "--"]))));
    assert_eq!(parse_command(&t, &words(&["speed", "fast"])), Ok((2, words(&["fast"]))));
}

#[test]
fn command_line_refusals() {
    let t = table();
    assert_eq!(parse_command(&t, &words(&[])), Err(CommandLineError::Invalid));
    assert_eq!(parse_command(&t, &words(&["nope"])), Err(CommandLineError::Invalid));
    assert_eq!(parse_command(&t, &words(&["mm", "1", "2", "3", "4"])), Err(CommandLineError::Invalid));
    assert_eq!(parse_command(&t, &words(&["mm", "-v"])), Err(CommandLineError::Invalid));
    assert_eq!(parse_command(&t, &words(&["speed", "medium"])), Err(CommandLineError::Invalid));
    assert_eq!(parse_command(&t, &words(&["mm"])), Err(CommandLineError::MissingArgument));
    assert_eq!(parse_command(&t, &words(&["speed"])), Err(CommandLineError::MissingArgument));
    assert_eq!(parse_command(&t, &words(&["--", "mm", "1"])), Err(CommandLineError::Invalid));
    // A lone dash is a value, not a flag.
    assert_eq!(parse_command(&t, &words(&["mm", "-"])), Ok((1, words(&["-"]))));
}

#[test]
fn command_help_lines_mark_optional_arguments() {
    assert_eq!(command_help_lines(&table()), vec!["help", "mm zone [x] [y]", "speed mode"]);
}

#[test]
fn attacker_and_target_comparison() {
    let strong = AiAbilityValues { level: 50, attack: 300, defence: 10, resistance: 5, charm: 1 };
    let weak = AiAbilityValues { level: 5, attack: 30, defence: 1, resistance: 0, charm: 1 };
    assert!(ai_condition_attacker_and_target_ability_value(
        Some((strong, 100)),
        Some((weak, 40)),
        AipOperatorType::GreaterThan,
        AipAbilityType::Attack
    ));
    assert!(!ai_condition_attacker_and_target_ability_value(
        Some((strong, 100)),
        Some((weak, 400)),
        AipOperatorType::GreaterThan,
        AipAbilityType::HealthPoints
    ));
    assert!(!ai_condition_attacker_and_target_ability_value(
        None,
        Some((weak, 40)),
        AipOperatorType::LessThan,
        AipAbilityType::Level
    ));
    assert!(ai_condition_source_ability_value(&weak, 40, AipOperatorType::Equals, AipAbilityType::Level, 5));
    assert!(!ai_condition_target_ability_value(None, AipOperatorType::Equals, AipAbilityType::Level, 5));
    assert!(ai_condition_target_ability_value(Some((strong, 1)), AipOperatorType::GreaterThanEqual, AipAbilityType::Charm, 1));
}

#[test]
fn owner_target_condition() {
    assert!(ai_condition_owner_has_target(Some(Some(4))));
    assert!(!ai_condition_owner_has_target(Some(None)));
    assert!(!ai_condition_owner_has_target(None));
}

#[test]
fn status_effect_condition() {
    let slots = vec![
        StatusEffectSlot { active: false, is_good: true, is_bad: false },
        StatusEffectSlot { active: true, is_good: false, is_bad: true },
    ];
    assert!(ai_condition_has_status_effect(Some(&slots), AipHaveStatusType::Any, true));
    assert!(ai_condition_has_status_effect(Some(&slots), AipHaveStatusType::Bad, true));
    assert!(ai_condition_has_status_effect(Some(&slots), AipHaveStatusType::Good, false));
    assert!(!ai_condition_has_status_effect(Some(&slots), AipHaveStatusType::Good, true));
    assert!(!ai_condition_has_status_effect(None, AipHaveStatusType::Any, false));
    assert!(ai_condition_has_status_effect(Some(&vec![]), AipHaveStatusType::Any, false));
}

fn search(count_operator: Option<AipOperatorType>, count: i32) -> NearbySearch {
    NearbySearch {
        source: 1,
        source_level: 20,
        source_team: 7,
        is_allied: false,
        level_diff_min: -5,
        level_diff_max: 5,
        count_operator,
        count,
    }
}

fn nearby() -> Vec<NearbyEntity> {
    vec![
        NearbyEntity { entity: 1, level: 20, team: 2, distance_rank: 0 },
        NearbyEntity { entity: 2, level: 18, team: 2, distance_rank: 30 },
        NearbyEntity { entity: 3, level: 40, team: 2, distance_rank: 5 },
        NearbyEntity { entity: 4, level: 22, team: 7, distance_rank: 1 },
        NearbyEntity { entity: 5, level: 21, team: 3, distance_rank: 10 },
        NearbyEntity { entity: 6, level: 19, team: 3, distance_rank: 20 },
    ]
}

#[test]
fn count_nearby_stops_at_count_without_operator() {
    let mut near = None;
    assert_eq!(ai_condition_count_nearby_entities(&nearby(), search(None, 2), &mut near), Some(5));
    // Only the entities looked at before stopping count for the nearest.
    assert_eq!(near, Some(5));
    let mut near = Some(99);
    assert_eq!(ai_condition_count_nearby_entities(&nearby(), search(None, 4), &mut near), None);
    assert_eq!(near, Some(5));
}

#[test]
fn count_nearby_compares_count_with_operator() {
    let mut near = None;
    assert_eq!(
        ai_condition_count_nearby_entities(&nearby(), search(Some(AipOperatorType::Equals), 3), &mut near),
        Some(5)
    );
    assert_eq!(near, Some(5));
    let mut near = None;
    assert_eq!(
        ai_condition_count_nearby_entities(&nearby(), search(Some(AipOperatorType::GreaterThan), 3), &mut near),
        None
    );
    // An earlier nearest is kept when nothing is counted.
    let mut near = Some(42);
    assert_eq!(
        ai_condition_count_nearby_entities(&vec![], search(Some(AipOperatorType::Equals), 0), &mut near),
        Some(42)
    );
}

#[test]
fn use_skill_commands() {
    assert_eq!(
        ai_action_use_skill(1, Some(5), None, None, AipSkillTarget::FindChar, 12, 30),
        Some(NpcSkillCommand::CastOnTarget { skill_id: 12, target: 5, cast_motion: 30, action_motion: 31 })
    );
    assert_eq!(
        ai_action_use_skill(1, None, None, None, AipSkillTarget::This, 12, 30),
        Some(NpcSkillCommand::CastOnSelf { skill_id: 12, cast_motion: 30, action_motion: 31 })
    );
    assert_eq!(ai_action_use_skill(1, None, Some(3), None, AipSkillTarget::Target, 0, 30), None);
    assert_eq!(ai_action_use_skill(1, None, None, None, AipSkillTarget::NearChar, 12, 30), None);
}

#[test]
fn monster_spawn_state() {
    assert_eq!(monster_spawn_state_zone(Some(4), 9), 4);
    assert_eq!(monster_spawn_state_zone(Some(0), 9), 9);
    assert_eq!(monster_spawn_state_zone(None, 9), 9);
    assert!(monster_spawns_enabled(AipMonsterSpawnState::Toggle, false));
    assert!(!monster_spawns_enabled(AipMonsterSpawnState::Toggle, true));
    assert!(monster_spawns_enabled(AipMonsterSpawnState::Enabled, false));
    assert!(!monster_spawns_enabled(AipMonsterSpawnState::Disabled, true));
}

#[test]
fn ai_time_conditions() {
    let t = LocalTime { day: 9, weekday_from_sunday: 5, hour: 20, minute: 15 };
    assert!(ai_condition_month_day_time(t, Some(9), 0, 35));
    assert!(!ai_condition_month_day_time(t, Some(8), 0, 35));
    assert!(ai_condition_week_day_time(t, 5, 35, 40));
    assert!(!ai_condition_week_day_time(t, 5, 36, 40));
}

#[test]
fn party_messages_go_to_online_members_but_one() {
    let members = vec![
        PartyMember::Online(3),
        PartyMember::Offline(20, "b".to_string()),
        PartyMember::Online(5),
        PartyMember::Online(8),
    ];
    assert_eq!(party_message_recipients(&members, Some(5)), vec![3, 8]);
    assert_eq!(party_message_recipients(&members, None), vec![3, 5, 8]);
    assert_eq!(count_online_members(&members), 3);
}

#[test]
fn party_world_lookups() {
    let world = PartyWorld {
        parties: Vec::new(),
        characters: vec![
            PartyMembershipQuery { entity: 4, character_id: 40, name: "a".to_string(), party_membership: None },
            PartyMembershipQuery { entity: 6, character_id: 60, name: "b".to_string(), party_membership: None },
        ],
    };
    assert_eq!(world.find_character(6), Some(1));
    assert_eq!(world.find_character(5), None);
    assert_eq!(world.find_character_by_id(40), Some(0));
    assert_eq!(world.find_character_by_id(41), None);
    assert_eq!(world.find_party(6), None);
}

#[test]
fn item_lookup_finds_first_instance() {
    let arrow = ItemReference { item_type: ItemType::Material, item_number: 2 };
    let bow = ItemReference { item_type: ItemType::Weapon, item_number: 2 };
    let slots = vec![
        Some(Item::Equipment(EquipmentItem { item: bow, life: 5, gem: 0, has_socket: false, is_appraised: false })),
        None,
        Some(Item::Stackable(StackableItem { item: arrow, quantity: 40 })),
        Some(Item::Stackable(StackableItem { item: arrow, quantity: 7 })),
    ];
    assert_eq!(find_item_slot(&slots, arrow), Some(2));
    assert_eq!(held_item_quantity(&slots, arrow), 40);
    assert_eq!(held_item_quantity(&slots, bow), 1);
    let other = ItemReference { item_type: ItemType::Gem, item_number: 2 };
    assert_eq!(find_item_slot(&slots, other), None);
    assert_eq!(held_item_quantity(&slots, other), 0);
}

#[test]
fn inventory_slots_fill_in_order() {
    let bow = EquipmentItem { item: ItemReference { item_type: ItemType::Weapon, item_number: 2 }, life: 5, gem: 0, has_socket: false, is_appraised: false };
    let mut inv = InventoryItems { slots: vec![Some(Item::Equipment(bow)), None, None] };
    assert_eq!(inv.find_empty_slot(), Some(1));
    assert_eq!(inv.try_add_equipment_item(bow), Ok(1));
    assert_eq!(inv.try_add_equipment_item(bow), Ok(2));
    assert_eq!(inv.try_add_equipment_item(bow), Err(bow));
    assert_eq!(inv.find_empty_slot(), None);
}

#[test]
fn bank_transfer_moves_part_of_a_stack() {
    let arrow = ItemReference { item_type: ItemType::Material, item_number: 2 };
    let mut from = InventoryItems { slots: vec![Some(Item::Stackable(StackableItem { item: arrow, quantity: 10 }))] };
    let mut to = InventoryItems { slots: vec![None, None] };
    let four = Item::Stackable(StackableItem { item: arrow, quantity: 4 });
    assert_eq!(transfer_item(&mut from, 0, &mut to, four), Some(0));
    assert_eq!(from.slots[0], Some(Item::Stackable(StackableItem { item: arrow, quantity: 6 })));
    assert_eq!(to.slots[0], Some(four));
    let too_many = Item::Stackable(StackableItem { item: arrow, quantity: 7 });
    assert_eq!(transfer_item(&mut from, 0, &mut to, too_many), None);
    assert_eq!(transfer_item(&mut from, 3, &mut to, four), None);
}

#[test]
fn snowball_fight_throws_at_a_team_mate() {
    let mut ai = BotAi { state: BotAiState::SnowballFight, time_since_last_idle_check: 10, messages: vec![] };
    match bot_snowball_fight(&mut ai, true, &vec![7, 9], 100) {
        BotAction::ThrowSnowball(t) => assert!(t == 7 || t == 9),
        other => panic!("unexpected {:?}", other),
    }
    assert_eq!(ai.time_since_last_idle_check, 85);
    assert_eq!(bot_snowball_fight(&mut ai, false, &vec![7], 100), BotAction::Nothing);
    assert_eq!(bot_snowball_fight(&mut ai, true, &vec![], 100), BotAction::Nothing);
    assert_eq!(ai.time_since_last_idle_check, 85);
}

use rose_offline::login::{
    add_game_server, add_world_server, channel_list, check_login_token, claim_login_token, entering_state, find_login_token, find_world_server,
    game_connection_result, join_server, login_result, world_server_list, AccountStorageError, ConnectionRequestError,
    GetChannelListError, JoinServerError, LoginError, LoginToken, SpawnPosition, WorldServerInfo,
};

fn servers() -> Vec<WorldServerInfo> {
    let mut servers = Vec::new();
    add_world_server(&mut servers, 10, "Alpha".to_string());
    add_world_server(&mut servers, 20, "Beta".to_string());
    add_game_server(&mut servers, 20, 21, "Beta 1".to_string());
    add_game_server(&mut servers, 20, 22, "Beta 2".to_string());
    servers
}

#[test]
fn server_lists_are_numbered_in_order() {
    let s = servers();
    assert_eq!(world_server_list(&s), vec![(0, "Alpha".to_string()), (1, "Beta".to_string())]);
    assert_eq!(channel_list(&s, 1), Ok(vec![(0, "Beta 1".to_string()), (1, "Beta 2".to_string())]));
    assert_eq!(channel_list(&s, 0), Ok(vec![]));
    assert_eq!(channel_list(&s, 2), Err(GetChannelListError::InvalidServerId));
    assert_eq!(find_world_server(&s, 20), Some(1));
    assert_eq!(find_world_server(&s, 30), None);
}

#[test]
fn joining_needs_server_and_channel() {
    let s = servers();
    assert_eq!(join_server(&s, 1, 1), Ok((1, 1)));
    assert_eq!(join_server(&s, 0, 0), Err(JoinServerError::InvalidChannelId));
    assert_eq!(join_server(&s, 5, 0), Err(JoinServerError::InvalidServerId));
}

#[test]
fn login_and_connection_answers() {
    assert_eq!(login_result(Ok(())), Ok(()));
    assert_eq!(login_result(Err(AccountStorageError::NotFound)), Err(LoginError::InvalidAccount));
    assert_eq!(login_result(Err(AccountStorageError::InvalidPassword)), Err(LoginError::InvalidPassword));
    assert_eq!(login_result(Err(AccountStorageError::Failed)), Err(LoginError::Failed));
    assert_eq!(game_connection_result(false, None, None), Err(ConnectionRequestError::InvalidToken));
    assert_eq!(game_connection_result(true, Some(false), None), Err(ConnectionRequestError::InvalidPassword));
    assert_eq!(game_connection_result(true, Some(true), Some(false)), Err(ConnectionRequestError::Failed));
    assert_eq!(game_connection_result(true, Some(true), Some(true)), Ok(()));
    let mut tokens = vec![
        LoginToken { token: 5, username: "a".to_string(), selected_character: "x".to_string(), world_client: Some(1), game_client: None },
        LoginToken { token: 7, username: "b".to_string(), selected_character: "y".to_string(), world_client: None, game_client: None },
        LoginToken { token: 9, username: "c".to_string(), selected_character: "z".to_string(), world_client: Some(2), game_client: Some(3) },
    ];
    assert_eq!(find_login_token(&tokens, 7), Some(1));
    assert_eq!(find_login_token(&tokens, 8), None);
    assert_eq!(check_login_token(&tokens, 5), Ok(0));
    assert_eq!(check_login_token(&tokens, 7), Err(ConnectionRequestError::InvalidToken));
    assert_eq!(check_login_token(&tokens, 9), Err(ConnectionRequestError::InvalidToken));
    assert_eq!(check_login_token(&tokens, 8), Err(ConnectionRequestError::InvalidToken));
    claim_login_token(&mut tokens, 0, 42);
    assert_eq!(tokens[0].game_client, Some(42));
    assert_eq!(tokens[0].world_client, Some(1));
    assert_eq!(tokens[1].game_client, None);
    assert_eq!(check_login_token(&tokens, 5), Err(ConnectionRequestError::InvalidToken));
}

#[test]
fn dead_characters_enter_at_revive_point() {
    assert_eq!(entering_state(0, 3, 500, 200), (500, 200, SpawnPosition::Revive));
    assert_eq!(entering_state(40, 3, 500, 200), (40, 3, SpawnPosition::Saved));
}

#[test]
fn farm_decisions_follow_the_draws() {
    let mut ai = BotAi { state: BotAiState::Farm, time_since_last_idle_check: 0, messages: vec![] };
    assert_eq!(bot_farm_decide(&mut ai, &vec![4, 5], true, &vec![9], 10, 1, 0), BotAction::MoveToItem(5));
    assert_eq!(ai.state, BotAiState::PickupItem(5));
    assert_eq!(ai.time_since_last_idle_check, 10);
    let mut ai = BotAi { state: BotAiState::Farm, time_since_last_idle_check: 0, messages: vec![] };
    assert_eq!(bot_farm_decide(&mut ai, &vec![], true, &vec![9], 10, 0, 0), BotAction::FollowOwner);
    assert_eq!(bot_farm_decide(&mut ai, &vec![], false, &vec![7, 9], 10, 0, 1), BotAction::Attack(9));
    assert_eq!(ai.time_since_last_idle_check, 20);
    assert_eq!(bot_farm_decide(&mut ai, &vec![], false, &vec![], 10, 0, 0), BotAction::Nothing);
    assert_eq!(ai.time_since_last_idle_check, 20);
    assert_eq!(ai.state, BotAiState::Farm);
    assert_eq!(bot_snowball_decide(&mut ai, true, &vec![3, 8], 8, 1), BotAction::ThrowSnowball(8));
    assert_eq!(ai.time_since_last_idle_check, 26);
    assert_eq!(bot_snowball_decide(&mut ai, false, &vec![3, 8], 8, 1), BotAction::Nothing);
}

use rose_offline::game_server::{expire_action, is_valid_attack_target, is_valid_move_target, ExpireAction};

#[test]
fn expiry_and_targets() {
    assert_eq!(expire_action(5, 10, true, true), ExpireAction::Keep);
    assert_eq!(expire_action(10, 10, true, true), ExpireAction::Die);
    assert_eq!(expire_action(11, 10, false, true), ExpireAction::Despawn { leave_zone: true });
    assert_eq!(expire_action(11, 10, false, false), ExpireAction::Despawn { leave_zone: false });
    assert!(is_valid_move_target(3, Some(3)));
    assert!(!is_valid_move_target(3, Some(4)));
    assert!(!is_valid_move_target(3, None));
    assert!(is_valid_attack_target(3, Some((3, 1))));
    assert!(!is_valid_attack_target(3, Some((3, 0))));
    assert!(!is_valid_attack_target(3, Some((2, 9))));
    assert!(!is_valid_attack_target(3, None));
}

#[test]
fn points_are_limited_to_maximum() {
    assert_eq!(rose_offline::stats::limit_to_maximum(120, 100), 100);
    assert_eq!(rose_offline::stats::limit_to_maximum(80, 100), 80);
    assert_eq!(rose_offline::stats::limit_to_maximum(80, -1), 80);
}

use rose_offline::ai_program::{
    ai_check_condition, npc_ai_run_trigger, AiState, AiView, AipCondition, AipDistanceOrigin, AipEvent, LocalNpc,
};
use rose_offline::ai::{AipDamageType, AipHaveStatusTarget, AipVariableType, ZoneDayTimes};

fn ai_view() -> AiView {
    AiView {
        source: 1,
        abilities: AiAbilityValues { level: 20, attack: 50, defence: 10, resistance: 5, charm: 0 },
        health_points: 30,
        max_health: 120,
        zone: 2,
        team: 7,
        target: Some(9),
        target_info: Some((AiAbilityValues { level: 10, attack: 5, defence: 1, resistance: 0, charm: 0 }, 40)),
        target_effects: None,
        own_effects: vec![StatusEffectSlot { active: true, is_good: true, is_bad: false }],
        owner_zone: None,
        owner_target: None,
        attacker: Some((9, AiAbilityValues { level: 10, attack: 5, defence: 1, resistance: 0, charm: 0 }, 40)),
        damage_received: Some(15),
        distance_squared_to_spawn: Some(2500),
        distance_squared_to_owner: None,
        distance_squared_to_target: Some(100),
        local_time: LocalTime { day: 1, weekday_from_sunday: 0, hour: 12, minute: 0 },
        world_time: 150,
        zone_times: Some(ZoneDayTimes { day_cycle: 100, day_time: 20, evening_time: 60, night_time: 80 }),
        own_variables: vec![4, 0],
        local_npcs: vec![
            LocalNpc { npc_id: 5, entity: 50, variables: vec![3] },
            LocalNpc { npc_id: 6, entity: 60, variables: vec![8] },
        ],
        nearby: vec![(10, nearby())],
    }
}

fn fresh_state() -> AiState {
    AiState { find_char: None, near_char: None, selected_local_npc: None }
}

#[test]
fn ai_conditions_read_the_view() {
    let view = ai_view();
    let mut st = fresh_state();
    let check = |st: &mut AiState, c: AipCondition| ai_check_condition(&view, st, &c).0;
    assert!(check(&mut st, AipCondition::Damage(AipDamageType::Received, AipOperatorType::Equals, 15)));
    assert!(!check(&mut st, AipCondition::Damage(AipDamageType::Given, AipOperatorType::Equals, 0)));
    assert!(check(&mut st, AipCondition::Distance(AipDistanceOrigin::Target, AipOperatorType::LessThanEqual, 10)));
    assert!(!check(&mut st, AipCondition::Distance(AipDistanceOrigin::Owner, AipOperatorType::LessThan, 10)));
    assert!(check(&mut st, AipCondition::HasNoOwner));
    assert!(check(&mut st, AipCondition::HealthPercent(AipOperatorType::Equals, 25)));
    assert!(check(&mut st, AipCondition::IsAttackerCurrentTarget));
    assert!(!check(&mut st, AipCondition::NoTargetAndCompareAttackerAbilityValue(AipOperatorType::Equals, AipAbilityType::Level, 10)));
    assert!(check(&mut st, AipCondition::SelfAbilityValue(AipOperatorType::GreaterThan, AipAbilityType::Attack, 49)));
    assert!(check(&mut st, AipCondition::MonthDay(Some(1), 12, 12)));
    assert!(check(&mut st, AipCondition::WeekDay(0, 0, 20)));
    assert!(check(&mut st, AipCondition::WorldTime(100, 200)));
    // Zone time is the world time wrapped by the day cycle: 50.
    assert!(check(&mut st, AipCondition::ZoneTime(50, 50)));
    // Day lasts from 10 to 70 in this zone.
    assert!(check(&mut st, AipCondition::IsDaytime(true)));
    assert!(check(&mut st, AipCondition::Variable(AipVariableType::Ai, 0, AipOperatorType::Equals, 4)));
    assert!(check(&mut st, AipCondition::ServerChannelNumber(1, 3)));
    assert!(check(&mut st, AipCondition::HasStatusEffect(AipHaveStatusTarget::This, AipHaveStatusType::Good, true)));
    assert!(!check(&mut st, AipCondition::HasStatusEffect(AipHaveStatusTarget::Target, AipHaveStatusType::Any, false)));
    assert!(check(&mut st, AipCondition::TargetAbilityValue(AipOperatorType::Equals, AipAbilityType::HealthPoints, 40)));
    assert!(check(&mut st, AipCondition::CompareAttackerAndTargetAbilityValue(AipOperatorType::Equals, AipAbilityType::Attack)));
    assert!(!check(&mut st, AipCondition::OwnerHasTarget));
    assert!(!check(&mut st, AipCondition::Other));
    assert!(check(&mut st, AipCondition::Random(AipOperatorType::LessThan, 0, 10, 10)));
    assert_eq!(st, fresh_state());
}

#[test]
fn ai_selected_npc_variables() {
    let view = ai_view();
    let mut st = fresh_state();
    assert!(ai_check_condition(&view, &mut st, &AipCondition::SelectLocalNpc(6)).0);
    assert_eq!(st.selected_local_npc, Some(60));
    assert!(ai_check_condition(&view, &mut st, &AipCondition::Variable(AipVariableType::LocalNpcObject, 0, AipOperatorType::Equals, 8)).0);
    assert!(!ai_check_condition(&view, &mut st, &AipCondition::SelectLocalNpc(7)).0);
    assert_eq!(st.selected_local_npc, None);
    // Without a selected NPC its variables read as zero.
    assert!(ai_check_condition(&view, &mut st, &AipCondition::Variable(AipVariableType::LocalNpcObject, 0, AipOperatorType::Equals, 0)).0);
}

#[test]
fn ai_trigger_runs_first_event_whose_conditions_hold() {
    let view = ai_view();
    let mut st = fresh_state();
    let find_many = AipCondition::FindNearbyEntities {
        distance: 10,
        is_allied: false,
        level_diff_min: -5,
        level_diff_max: 5,
        count_operator: Some(AipOperatorType::GreaterThan),
        count: 5,
    };
    let events = vec![
        AipEvent { conditions: vec![find_many] },
        AipEvent { conditions: vec![AipCondition::WorldTime(0, 10)] },
        AipEvent { conditions: vec![AipCondition::SelectLocalNpc(5), AipCondition::Variable(AipVariableType::LocalNpcObject, 0, AipOperatorType::Equals, 3)] },
        AipEvent { conditions: vec![] },
    ];
    assert_eq!(npc_ai_run_trigger(&view, &mut st, &events), Some(2));
    // The failed search of the first event still remembered the nearest.
    assert_eq!(st.near_char, Some(5));
    assert_eq!(st.find_char, None);
    assert_eq!(st.selected_local_npc, Some(50));

    let mut st = fresh_state();
    let find_two = AipCondition::FindNearbyEntities {
        distance: 10,
        is_allied: false,
        level_diff_min: -5,
        level_diff_max: 5,
        count_operator: None,
        count: 2,
    };
    assert_eq!(npc_ai_run_trigger(&view, &mut st, &vec![AipEvent { conditions: vec![find_two] }]), Some(0));
    assert_eq!(st.find_char, Some(5));
    let unknown_zone = AipCondition::FindNearbyEntities {
        distance: 99,
        is_allied: false,
        level_diff_min: -5,
        level_diff_max: 5,
        count_operator: None,
        count: 2,
    };
    assert_eq!(npc_ai_run_trigger(&view, &mut fresh_state(), &vec![AipEvent { conditions: vec![unknown_zone] }]), None);
    assert_eq!(npc_ai_run_trigger(&view, &mut fresh_state(), &vec![]), None);
}

use rose_offline::clan::{ClanMark, ClanStorage};

#[test]
fn clan_storage_writes() {
    let clan = ClanStorage::new("Knights".to_string(), "We ride".to_string(), ClanMark::Custom { crc16: 7 });
    let create = clan.try_create("clans", "{}".to_string());
    assert_eq!(create.path, "clans/Knights.json");
    assert_eq!(create.contents, "{}");
    assert!(!create.allow_overwrite);
    let save = clan.save("clans", "{\"level\":1}".to_string());
    assert_eq!(save.path, "clans/Knights.json");
    assert!(save.allow_overwrite);
}

use rose_offline::ai_actions::{npc_ai_do_actions, AiActionContext, AipAction, NpcAiCommand};
use rose_offline::operators::AipResultOperator;

#[test]
fn ai_actions_give_commands_in_order() {
    let view = ai_view();
    let state = AiState { find_char: Some(70), near_char: None, selected_local_npc: Some(50) };
    let ctx = AiActionContext { is_monster: true, npc_team: 100, owner_target_team: None };
    let actions = vec![
        AipAction::Stop,
        AipAction::AttackNearChar,
        AipAction::AttackFindChar,
        AipAction::AttackAttacker,
        AipAction::AttackOwnerTarget,
        AipAction::DoQuestTrigger("q1".to_string()),
        AipAction::KillSelf,
        AipAction::Emote(65537),
        AipAction::UseSkill(AipSkillTarget::This, 12, 3),
        AipAction::SetMonsterSpawnState(None, AipMonsterSpawnState::Toggle),
        AipAction::SetVariable(AipVariableType::LocalNpcObject, 0, AipResultOperator::Add, 2),
        AipAction::SetVariable(AipVariableType::Ai, 1, AipResultOperator::Assign, 6),
        AipAction::Say,
        AipAction::Outside,
    ];
    let commands = npc_ai_do_actions(&view, &state, ctx, &actions);
    assert_eq!(
        commands,
        vec![
            NpcAiCommand::Stop,
            NpcAiCommand::Attack(70),
            NpcAiCommand::Attack(9),
            NpcAiCommand::QuestTrigger(50, "q1".to_string()),
            NpcAiCommand::Damage(1, 31),
            NpcAiCommand::Emote(1),
            NpcAiCommand::Skill(NpcSkillCommand::CastOnSelf { skill_id: 12, cast_motion: 3, action_motion: 4 }),
            NpcAiCommand::SetMonsterSpawnState(2, AipMonsterSpawnState::Toggle),
            NpcAiCommand::SetVariable(50, AipVariableType::LocalNpcObject, 0, AipResultOperator::Add, 2),
            NpcAiCommand::SetVariable(1, AipVariableType::Ai, 1, AipResultOperator::Assign, 6),
            NpcAiCommand::Outside(13),
        ]
    );
}

#[test]
fn ai_actions_owner_target_and_quest_trigger_of_non_monsters() {
    let mut view = ai_view();
    view.owner_target = Some(Some(44));
    let state = fresh_state();
    let ctx = AiActionContext { is_monster: false, npc_team: 100, owner_target_team: Some(3) };
    let actions = vec![AipAction::AttackOwnerTarget, AipAction::DoQuestTrigger("q2".to_string())];
    assert_eq!(
        npc_ai_do_actions(&view, &state, ctx, &actions),
        vec![NpcAiCommand::Attack(44), NpcAiCommand::QuestTrigger(1, "q2".to_string())]
    );
    let same_team = AiActionContext { owner_target_team: Some(7), ..ctx };
    assert_eq!(npc_ai_do_actions(&view, &state, same_team, &vec![AipAction::AttackOwnerTarget]), vec![]);
    let npc_team = AiActionContext { owner_target_team: Some(100), ..ctx };
    assert_eq!(npc_ai_do_actions(&view, &state, npc_team, &vec![AipAction::AttackOwnerTarget]), vec![]);
    let monster = AiActionContext { is_monster: true, ..ctx };
    assert_eq!(npc_ai_do_actions(&view, &state, monster, &vec![AipAction::DoQuestTrigger("q3".to_string())]), vec![]);
}

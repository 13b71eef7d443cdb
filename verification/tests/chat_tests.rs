use rose_offline::chat::{
    add_ability_type_of, chat_command_replies, damage_command_targets, handle_chat_command, handle_gm_command, send_chat_commands_help, send_gm_commands_help,
    send_multiline_whisper, set_ability_type_of, ChatAction, ChatCommandError, ClientEntityKind, GMCommandError, GmAction,
};
use rose_offline::game_server::is_chat_command;
use rose_offline::stats::AbilityType;
use rose_offline::text::{is_float_text, parse_integer, str_eq, text_lines};

fn action(text: &str) -> ChatAction {
    match handle_chat_command(text) {
        Ok((action, _)) => action,
        Err(e) => panic!("command {:?} failed: {:?}", text, e),
    }
}

fn error(text: &str) -> ChatCommandError {
    match handle_chat_command(text) {
        Ok((action, _)) => panic!("command {:?} succeeded: {:?}", text, action),
        Err(e) => e,
    }
}

#[test]
fn chat_commands_read_their_arguments() {
    assert_eq!(action("help"), ChatAction::Help);
    assert!(matches!(error("help where"), ChatCommandError::InvalidCommand));
    assert_eq!(action("where"), ChatAction::Where);
    assert_eq!(action("level 50"), ChatAction::Level { level: 50 });
    assert_eq!(action("add money 100"), ChatAction::AddAbility { ability: AbilityType::Money, value: 100 });
    assert_eq!(action("set job 111"), ChatAction::SetAbility { ability: AbilityType::Class, value: 111 });
    assert_eq!(action("add union_point3 +7"), ChatAction::AddAbility { ability: AbilityType::UnionPoint3, value: 7 });
    assert_eq!(action("speed 425"), ChatAction::Speed { speed: 425 });
    assert_eq!(action("skill remove 12"), ChatAction::Skill { add: false, skill_id: 12 });
    assert_eq!(action("bot 3"), ChatAction::Bot { count: 3 });
    assert_eq!(action("snowball_fight 2"), ChatAction::SnowballFight { count: 2 });
    assert_eq!(action("shop 5"), ChatAction::Shop { item_type: 5 });
    assert_eq!(action("mm 2"), ChatAction::Teleport { zone: 2, has_position: false });
    assert_eq!(action("mm 2 5.5 6.5"), ChatAction::Teleport { zone: 2, has_position: true });
    assert_eq!(action("damage 10 300 crit"), ChatAction::Damage { amount: 10, critical: true, hit_stun: false });
    assert_eq!(action("damage 10 300"), ChatAction::Damage { amount: 10, critical: false, hit_stun: false });
    assert_eq!(
        action("mon 7 3"),
        ChatAction::Monster { npc_id: 7, count: 3, distance: 250, team: None }
    );
    assert_eq!(
        action("mon 7 3 100 4"),
        ChatAction::Monster { npc_id: 7, count: 3, distance: 100, team: Some(4) }
    );
    assert_eq!(
        action("drop 3 21 5"),
        ChatAction::Item { drop: true, item_type: 3, item_number: Some(21), quantity: 5, has_socket: false, gem: 0, grade: 0 }
    );
    assert_eq!(
        action("item 3 x bad 1 9 2"),
        ChatAction::Item { drop: false, item_type: 3, item_number: None, quantity: 1, has_socket: true, gem: 9, grade: 2 }
    );
}

#[test]
fn chat_command_arguments_are_returned() {
    let (_, args) = handle_chat_command("mm 2 \"5.5\" 6.5").unwrap();
    assert_eq!(args, vec!["2".to_string(), "5.5".to_string(), "6.5".to_string()]);
}

#[test]
fn chat_command_errors() {
    assert!(matches!(error("unknown"), ChatCommandError::InvalidCommand));
    assert!(matches!(error(""), ChatCommandError::InvalidCommand));
    assert!(matches!(error("level"), ChatCommandError::InvalidArguments));
    assert!(matches!(error("level abc"), ChatCommandError::InvalidArguments));
    assert!(matches!(error("level 1 2"), ChatCommandError::InvalidCommand));
    assert!(matches!(error("level \"1"), ChatCommandError::InvalidCommand));
    assert!(matches!(error("add money -5"), ChatCommandError::InvalidCommand));
    assert!(matches!(error("skill learn 3"), ChatCommandError::InvalidCommand));
    assert!(matches!(error("mon 0 3"), ChatCommandError::InvalidArguments));
    match error("add luck 1") {
        ChatCommandError::WithMessage(m) => assert_eq!(m, "Invalid ability type luck"),
        other => panic!("unexpected {:?}", other),
    }
    // the value is read before the ability name
    assert!(matches!(error("add luck x"), ChatCommandError::InvalidArguments));
}

#[test]
fn gm_commands() {
    assert_eq!(handle_gm_command("help").err(), Some(GMCommandError::InvalidCommand));
    assert_eq!(handle_gm_command("shop -1").err(), Some(GMCommandError::InvalidCommand));
    assert_eq!(handle_gm_command("shop 12").unwrap().0, GmAction::Shop { item_type: 12 });
    assert_eq!(
        handle_gm_command("add strength 3").unwrap().0,
        GmAction::AddAbility { ability: AbilityType::Strength, value: 3 }
    );
    assert_eq!(handle_gm_command("add luck 3").err(), Some(GMCommandError::InvalidArguments));
    assert_eq!(handle_gm_command("set strength 3").err(), Some(GMCommandError::InvalidCommand));
    assert_eq!(handle_gm_command("level").err(), Some(GMCommandError::InvalidArguments));
}

#[test]
fn help_lines() {
    let lines = send_chat_commands_help();
    assert_eq!(lines.len(), 16);
    assert_eq!(lines[0], "help");
    assert_eq!(lines[3], "damage amount distance [type]");
    assert_eq!(lines[15], "skill cmd id");
    let gm = send_gm_commands_help();
    assert_eq!(gm.len(), 9);
    assert_eq!(gm[3], "mm zone [x] [y]");
}

#[test]
fn ability_names() {
    assert_eq!(add_ability_type_of("bonus_point"), Some(AbilityType::BonusPoint));
    assert_eq!(add_ability_type_of("gender"), None);
    assert_eq!(set_ability_type_of("gender"), Some(AbilityType::Gender));
    assert_eq!(set_ability_type_of("money"), None);
}

#[test]
fn multiline_whispers_split_lines() {
    assert_eq!(send_multiline_whisper("a\nb\r\n\nc\n"), vec!["a", "b", "", "c"]);
    assert!(send_multiline_whisper("").is_empty());
    let text = "first\r\nsecond";
    let expected: Vec<String> = text.lines().map(|l| l.to_string()).collect();
    assert_eq!(text_lines(text), expected);
}

#[test]
fn integers_parse_like_std() {
    for text in ["0", "42", "+7", "-7", "-", "+", "", "12a", "99999999999", "-0"] {
        let expected = text.parse::<i32>().ok().map(|v| v as i128);
        assert_eq!(parse_integer(text, i32::MIN as i128, i32::MAX as i128), expected, "{:?}", text);
        let expected_u = text.parse::<u16>().ok().map(|v| v as i128);
        assert_eq!(parse_integer(text, 0, u16::MAX as i128), expected_u, "{:?}", text);
    }
}

#[test]
fn chat_lines_starting_with_slash_are_commands() {
    assert!(is_chat_command("/help"));
    assert!(!is_chat_command("hello"));
    assert!(!is_chat_command(""));
    assert!(str_eq("abc", "abc"));
    assert!(!str_eq("abc", "abd"));
}

#[test]
fn missing_arguments_are_reported_before_bad_choices() {
    assert!(matches!(error("skill foo"), ChatCommandError::InvalidArguments));
    assert!(matches!(error("skill foo 3"), ChatCommandError::InvalidCommand));
}

#[test]
fn double_dash_ends_the_flags() {
    assert!(matches!(error("add strength -3"), ChatCommandError::InvalidCommand));
    assert_eq!(action("add strength -- -3"), ChatAction::AddAbility { ability: AbilityType::Strength, value: -3 });
    assert!(matches!(error("-- where"), ChatCommandError::InvalidCommand));
}

#[test]
fn fractional_arguments_must_be_numbers() {
    assert!(matches!(error("damage 10 abc"), ChatCommandError::InvalidArguments));
    assert_eq!(action("damage 10 1.5e2 crit"), ChatAction::Damage { amount: 10, critical: true, hit_stun: false });
    assert!(matches!(error("mm 2 1.5 x"), ChatCommandError::InvalidArguments));
    assert_eq!(action("mm 2 1.5"), ChatAction::Teleport { zone: 2, has_position: false });
    assert_eq!(action("mm 2 1.5 -- -2"), ChatAction::Teleport { zone: 2, has_position: true });
    assert_eq!(handle_gm_command("mm 2 x 3").err(), Some(GMCommandError::InvalidArguments));
    assert_eq!(handle_gm_command("mm 2 4 3").unwrap().0, GmAction::Teleport { zone: 2, has_position: true });
}

#[test]
fn float_texts() {
    for text in ["inf", "-Infinity", "+NaN", "1.", ".5", "1e-3", "12", "3.25E+7"] {
        assert!(is_float_text(text), "{}", text);
    }
    for text in ["", ".", "e5", "1e", "1.2.3", "--1", "infinit", "1f", "1e+"] {
        assert!(!is_float_text(text), "{}", text);
    }
}

#[test]
fn damage_hits_characters_and_monsters_but_not_the_user() {
    let nearby = vec![
        (1, ClientEntityKind::Character),
        (2, ClientEntityKind::Monster),
        (3, ClientEntityKind::Npc),
        (4, ClientEntityKind::DroppedItem),
        (5, ClientEntityKind::Character),
    ];
    assert_eq!(damage_command_targets(5, &nearby), vec![1, 2]);
}

#[test]
fn chat_command_reply_texts() {
    assert_eq!(chat_command_replies("/where", None), vec!["Success: /where".to_string()]);
    assert_eq!(
        chat_command_replies("/x", Some(&ChatCommandError::InvalidCommand)),
        vec!["Failed: /x".to_string(), "Invalid command".to_string()]
    );
    assert_eq!(
        chat_command_replies("/x", Some(&ChatCommandError::InvalidArguments)),
        vec!["Failed: /x".to_string(), "Invalid argument".to_string()]
    );
    assert_eq!(
        chat_command_replies("/x", Some(&ChatCommandError::WithMessage("no".to_string()))),
        vec!["Failed: /x".to_string(), "no".to_string()]
    );
}

use rose_offline::chat_effects::{chat_command_effects, gm_command_effects, invalid_zone_message, ChatEffect, ChatUser};
use rose_offline::xp::LevelTable;

fn level_table() -> LevelTable {
    LevelTable { require_xp: vec![10, 20, 30], skill_points: vec![0, 1, 1, 1], stat_points: vec![0, 2, 2, 2] }
}

#[test]
fn chat_command_effects_of_level_damage_and_teleport() {
    let user = ChatUser { entity: 5, level: 0 };
    let table = level_table();
    assert_eq!(
        chat_command_effects(ChatAction::Level { level: 2 }, user, &table, None, true),
        Ok(vec![ChatEffect::RewardXp { entity: 5, xp: 30 }])
    );
    assert_eq!(
        chat_command_effects(ChatAction::Level { level: 0 }, ChatUser { level: 2, ..user }, &table, None, true),
        Ok(vec![ChatEffect::RewardXp { entity: 5, xp: 0 }])
    );
    let nearby = vec![(1, ClientEntityKind::Character), (5, ClientEntityKind::Character), (3, ClientEntityKind::Npc), (2, ClientEntityKind::Monster)];
    let damage = ChatAction::Damage { amount: 7, critical: true, hit_stun: false };
    assert_eq!(
        chat_command_effects(damage, user, &table, Some(&nearby), true),
        Ok(vec![
            ChatEffect::Damage { attacker: 5, defender: 1, amount: 7, critical: true, hit_stun: false },
            ChatEffect::Damage { attacker: 5, defender: 2, amount: 7, critical: true, hit_stun: false },
        ])
    );
    assert_eq!(chat_command_effects(damage, user, &table, None, true), Ok(vec![]));
    let teleport = ChatAction::Teleport { zone: 123, has_position: false };
    assert_eq!(chat_command_effects(teleport, user, &table, None, true), Ok(vec![ChatEffect::Teleport { zone: 123 }]));
    assert_eq!(
        chat_command_effects(teleport, user, &table, None, false),
        Err(ChatCommandError::WithMessage("Invalid zone id 123".to_string()))
    );
    assert_eq!(chat_command_effects(ChatAction::Help, user, &table, None, true), Ok(vec![ChatEffect::WhisperHelp]));
    assert_eq!(chat_command_effects(ChatAction::Where, user, &table, None, true), Ok(vec![ChatEffect::Outside]));
}

#[test]
fn gm_teleport_to_a_missing_zone_only_whispers() {
    let user = ChatUser { entity: 5, level: 1 };
    let table = level_table();
    assert_eq!(
        gm_command_effects(GmAction::Teleport { zone: 7, has_position: false }, user, &table, false),
        vec![ChatEffect::Whisper("Invalid zone id 7".to_string())]
    );
    assert_eq!(gm_command_effects(GmAction::Teleport { zone: 7, has_position: true }, user, &table, true), vec![ChatEffect::Teleport { zone: 7 }]);
    assert_eq!(gm_command_effects(GmAction::Level { level: 3 }, user, &table, true), vec![ChatEffect::RewardXp { entity: 5, xp: 50 }]);
    assert_eq!(invalid_zone_message(0), "Invalid zone id 0");
    assert_eq!(invalid_zone_message(65535), "Invalid zone id 65535");
}

#[test]
fn zero_ids_are_refused() {
    assert!(matches!(error("mm 0"), ChatCommandError::InvalidArguments));
    assert!(matches!(error("skill add 0"), ChatCommandError::InvalidArguments));
    assert_eq!(handle_gm_command("mm 0").err(), Some(GMCommandError::InvalidArguments));
}

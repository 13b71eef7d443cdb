use vstd::prelude::*;
use vstd::string::StringExecFns;
use crate::chat::{
    damage_command_targets, damage_targets, ChatAction, ChatCommandError, ChatCommandErrorModel, ClientEntityKind,
    GmAction,
};
use crate::xp::{level_command_xp, required_between, LevelTable};

verus! {

/// The user of a chat command, as its effects read it.
#[derive(Clone, Copy, Debug, PartialEq, Eq, Structural)]
pub struct ChatUser {
    pub entity: u64,
    pub level: u32,
}

/// What a chat or GM command does to the world.
#[derive(Clone, Debug, PartialEq, Eq)]
pub enum ChatEffect {
    /// The help lines are whispered to the user.
    WhisperHelp,
    /// A text is whispered to the user, line by line.
    Whisper(String),
    /// The entity earns experience.
    RewardXp { entity: u64, xp: u64 },
    /// Immediate damage from the attacker to the defender.
    Damage { attacker: u64, defender: u64, amount: u32, critical: bool, hit_stun: bool },
    /// The user moves to the zone (to the position the command names, or
    /// the zone's start).
    Teleport { zone: u16 },
    /// An action whose work is game data or entities the caller holds
    /// (items, monsters, bots, shops, ability values, skills, speed, where).
    Outside,
}

pub enum ChatEffectModel {
    WhisperHelp,
    Whisper(Seq<char>),
    RewardXp { entity: u64, xp: u64 },
    Damage { attacker: u64, defender: u64, amount: u32, critical: bool, hit_stun: bool },
    Teleport { zone: u16 },
    Outside,
}

impl View for ChatEffect {
    type V = ChatEffectModel;

    open spec fn view(&self) -> ChatEffectModel {
        match self {
            ChatEffect::WhisperHelp => ChatEffectModel::WhisperHelp,
            ChatEffect::Whisper(t) => ChatEffectModel::Whisper(t@),
            ChatEffect::RewardXp { entity, xp } => ChatEffectModel::RewardXp { entity: *entity, xp: *xp },
            ChatEffect::Damage { attacker, defender, amount, critical, hit_stun } => ChatEffectModel::Damage {
                attacker: *attacker, defender: *defender, amount: *amount, critical: *critical, hit_stun: *hit_stun },
            ChatEffect::Teleport { zone } => ChatEffectModel::Teleport { zone: *zone },
            ChatEffect::Outside => ChatEffectModel::Outside,
        }
    }
}

pub open spec fn effects_view(effects: Seq<ChatEffect>) -> Seq<ChatEffectModel> {
    effects.map_values(|e: ChatEffect| e@)
}

/// The decimal digit `d`.
pub open spec fn digit_char(d: nat) -> char {
    (('0' as u32) + d) as char
}

/// The decimal text of `n`, as `format!` writes it.
pub open spec fn decimal_text(n: nat) -> Seq<char>
    decreases n,
{
    if n < 10 {
        seq![digit_char(n)]
    } else {
        decimal_text(n / 10).push(digit_char(n % 10))
    }
}

pub open spec fn invalid_zone_text(zone: u16) -> Seq<char> {
    "Invalid zone id "@ + decimal_text(zone as nat)
}

fn digit_text(d: u64) -> (s: &'static str)
    requires
        d < 10,
    ensures
        s@ == seq![digit_char(d as nat)],
{
    proof {
        reveal_strlit("0"); reveal_strlit("1"); reveal_strlit("2"); reveal_strlit("3"); reveal_strlit("4");
        reveal_strlit("5"); reveal_strlit("6"); reveal_strlit("7"); reveal_strlit("8"); reveal_strlit("9");
    }
    if d == 0 { "0" } else if d == 1 { "1" } else if d == 2 { "2" } else if d == 3 { "3" } else if d == 4 { "4" }
    else if d == 5 { "5" } else if d == 6 { "6" } else if d == 7 { "7" } else if d == 8 { "8" } else { "9" }
}

fn append_decimal(text: &mut String, n: u64)
    ensures
        final(text)@ == old(text)@ + decimal_text(n as nat),
    decreases n,
{
    if n >= 10 {
        append_decimal(text, n / 10);
    }
    text.append(digit_text(n % 10));
    proof {
        if n >= 10 {
            assert(old(text)@ + decimal_text((n / 10) as nat) + seq![digit_char((n % 10) as nat)]
                =~= old(text)@ + decimal_text(n as nat));
        } else {
            assert(old(text)@ + seq![digit_char(n as nat)] =~= old(text)@ + decimal_text(n as nat));
        }
    }
}

/// The whisper for a zone that is not in play.
pub fn invalid_zone_message(zone: u16) -> (text: String)
    ensures
        text@ == invalid_zone_text(zone),
{
    let mut text = String::from_str("Invalid zone id ");
    append_decimal(&mut text, zone as u64);
    text
}

pub open spec fn effect_damages(attacker: u64, targets: Seq<u64>, amount: u32, critical: bool, hit_stun: bool)
    -> Seq<ChatEffectModel>
{
    targets.map_values(|d: u64| ChatEffectModel::Damage { attacker, defender: d, amount, critical, hit_stun })
}

/// What a chat command does, given the user, the level table, the entities
/// of the user's zone within the distance a damage command names (measured
/// by the caller; `None` when the zone is not in play) and whether the zone
/// a teleport names is in play.
pub open spec fn spec_chat_effects(action: ChatAction, user: ChatUser, table: Seq<u64>,
    nearby: Option<Seq<(u64, ClientEntityKind)>>, zone_exists: bool) -> Result<Seq<ChatEffectModel>, ChatCommandErrorModel>
{
    match action {
        ChatAction::Help => Ok(seq![ChatEffectModel::WhisperHelp]),
        ChatAction::Level { level } => Ok(seq![ChatEffectModel::RewardXp {
            entity: user.entity,
            xp: required_between(table, user.level as int, level as int) as u64,
        }]),
        ChatAction::Damage { amount, critical, hit_stun } => Ok(match nearby {
            Some(n) => effect_damages(user.entity, damage_targets(user.entity, n), amount, critical, hit_stun),
            None => Seq::empty(),
        }),
        ChatAction::Teleport { zone, .. } => if zone_exists {
            Ok(seq![ChatEffectModel::Teleport { zone }])
        } else {
            Err(ChatCommandErrorModel::WithMessage(invalid_zone_text(zone)))
        },
        _ => Ok(seq![ChatEffectModel::Outside]),
    }
}

/// What a chat command does once read: help is whispered; `level` rewards
/// the experience the levels from the user's up to the target require;
/// `damage` hits each character and monster within the distance other than
/// the user; `mm` to a zone not in play fails with "Invalid zone id N";
/// the other actions are the caller's.
pub fn chat_command_effects(action: ChatAction, user: ChatUser, table: &LevelTable,
    nearby: Option<&Vec<(u64, ClientEntityKind)>>, zone_exists: bool) -> (result: Result<Vec<ChatEffect>, ChatCommandError>)
    requires
        action matches ChatAction::Level { level } ==> (user.level < level ==> level <= table.require_xp@.len())
            && required_between(table.require_xp@, user.level as int, level as int) <= u64::MAX,
    ensures
        match spec_chat_effects(action, user, table.require_xp@, match nearby { Some(n) => Some(n@), None => None }, zone_exists) {
            Ok(effects) => result matches Ok(r) && effects_view(r@) == effects,
            Err(e) => result matches Err(r) && r@ == e,
        },
{
    let mut effects: Vec<ChatEffect> = Vec::new();
    match action {
        ChatAction::Help => effects.push(ChatEffect::WhisperHelp),
        ChatAction::Level { level } => {
            let xp = level_command_xp(table, user.level, level);
            effects.push(ChatEffect::RewardXp { entity: user.entity, xp });
        },
        ChatAction::Damage { amount, critical, hit_stun } => {
            match nearby {
                Some(n) => {
                    let targets = damage_command_targets(user.entity, n);
                    let mut i: usize = 0;
                    while i < targets.len()
                        invariant
                            i <= targets.len(),
                            effects_view(effects@) == effect_damages(user.entity, targets@.take(i as int), amount, critical, hit_stun),
                        decreases targets.len() - i,
                    {
                        let ghost before = effects@;
                        let e = ChatEffect::Damage { attacker: user.entity, defender: targets[i], amount, critical, hit_stun };
                        effects.push(e);
                        proof {
                            assert(effects@ =~= before.push(e));
                            assert(effects_view(effects@) =~= effects_view(before).push(e@));
                            assert(targets@.take(i as int + 1) =~= targets@.take(i as int).push(targets@[i as int]));
                            assert(effect_damages(user.entity, targets@.take(i as int + 1), amount, critical, hit_stun)
                                =~= effect_damages(user.entity, targets@.take(i as int), amount, critical, hit_stun).push(e@));
                        }
                        i += 1;
                    }
                    assert(targets@.take(targets@.len() as int) =~= targets@);
                },
                None => {},
            }
        },
        ChatAction::Teleport { zone, .. } => {
            if zone_exists {
                effects.push(ChatEffect::Teleport { zone });
            } else {
                return Err(ChatCommandError::WithMessage(invalid_zone_message(zone)));
            }
        },
        _ => effects.push(ChatEffect::Outside),
    }
    proof {
        let expected = spec_chat_effects(action, user, table.require_xp@, match nearby { Some(n) => Some(n@), None => None }, zone_exists);
        if let Ok(e) = expected {
            assert(effects_view(effects@) =~= e);
        }
    }
    Ok(effects)
}

/// What a GM command does, given the user, the level table and whether the
/// zone a teleport names is in play: `mm` to a zone not in play whispers
/// "Invalid zone id N" and does not move the user.
pub open spec fn spec_gm_effects(action: GmAction, user: ChatUser, table: Seq<u64>, zone_exists: bool) -> Seq<ChatEffectModel> {
    match action {
        GmAction::Level { level } => seq![ChatEffectModel::RewardXp {
            entity: user.entity,
            xp: required_between(table, user.level as int, level as int) as u64,
        }],
        GmAction::Teleport { zone, .. } => if zone_exists {
            seq![ChatEffectModel::Teleport { zone }]
        } else {
            seq![ChatEffectModel::Whisper(invalid_zone_text(zone))]
        },
        _ => seq![ChatEffectModel::Outside],
    }
}

pub fn gm_command_effects(action: GmAction, user: ChatUser, table: &LevelTable, zone_exists: bool) -> (effects: Vec<ChatEffect>)
    requires
        action matches GmAction::Level { level } ==> (user.level < level ==> level <= table.require_xp@.len())
            && required_between(table.require_xp@, user.level as int, level as int) <= u64::MAX,
    ensures
        effects_view(effects@) == spec_gm_effects(action, user, table.require_xp@, zone_exists),
{
    let mut effects: Vec<ChatEffect> = Vec::new();
    match action {
        GmAction::Level { level } => {
            let xp = level_command_xp(table, user.level, level);
            effects.push(ChatEffect::RewardXp { entity: user.entity, xp });
        },
        GmAction::Teleport { zone, .. } => {
            if zone_exists {
                effects.push(ChatEffect::Teleport { zone });
            } else {
                effects.push(ChatEffect::Whisper(invalid_zone_message(zone)));
            }
        },
        _ => effects.push(ChatEffect::Outside),
    }
    assert(effects_view(effects@) =~= spec_gm_effects(action, user, table.require_xp@, zone_exists));
    effects
}

} // verus!

use vstd::prelude::*;
use vstd::string::StringExecFns;
use crate::command_line::{
    arg, missing_required, command_help_lines, help_line, parse_command, shell_split, spec_parse, split_words, table_view,
    words_view, CommandArg, CommandArgModel, CommandLineError, CommandSpec, CommandSpecModel,
};
use crate::stats::AbilityType;
use crate::text::{float_text, is_float_text, parse_int, parse_integer, str_eq, text_lines, lines_from};

verus! {

/// Why a chat command failed.
#[derive(Clone, Debug, PartialEq, Eq)]
pub enum ChatCommandError {
    InvalidCommand,
    InvalidArguments,
    WithMessage(String),
}

pub enum ChatCommandErrorModel {
    InvalidCommand,
    InvalidArguments,
    WithMessage(Seq<char>),
}

impl View for ChatCommandError {
    type V = ChatCommandErrorModel;

    open spec fn view(&self) -> ChatCommandErrorModel {
        match self {
            ChatCommandError::InvalidCommand => ChatCommandErrorModel::InvalidCommand,
            ChatCommandError::InvalidArguments => ChatCommandErrorModel::InvalidArguments,
            ChatCommandError::WithMessage(m) => ChatCommandErrorModel::WithMessage(m@),
        }
    }
}

/// Why a GM command failed.
#[derive(Clone, Copy, Debug, PartialEq, Eq, Structural)]
pub enum GMCommandError {
    InvalidCommand,
    InvalidArguments,
}

/// What a chat command asks for, with its arguments read. Arguments that
/// are decimal fractions (a distance, coordinates) are checked to be
/// numbers and stay text for the caller to read; so do names that only the
/// game data can check.
#[derive(Clone, Copy, Debug, PartialEq, Eq, Structural)]
pub enum ChatAction {
    /// The help lines are whispered.
    Help,
    Where,
    AbilityValues,
    Damage { amount: u32, critical: bool, hit_stun: bool },
    Item { drop: bool, item_type: usize, item_number: Option<usize>, quantity: u32, has_socket: bool, gem: u16, grade: u8 },
    Teleport { zone: u16, has_position: bool },
    Monster { npc_id: u16, count: usize, distance: i32, team: Option<u32> },
    Level { level: u32 },
    Bot { count: usize },
    SnowballFight { count: usize },
    Shop { item_type: usize },
    AddAbility { ability: AbilityType, value: i32 },
    SetAbility { ability: AbilityType, value: i32 },
    Speed { speed: i32 },
    Skill { add: bool, skill_id: u16 },
}

pub open spec fn cmd(name: Seq<char>, args: Seq<CommandArgModel>) -> CommandSpecModel {
    CommandSpecModel { name, args }
}

pub open spec fn req(name: Seq<char>) -> CommandArgModel {
    CommandArgModel { name, required: true, choices: Seq::empty() }
}

pub open spec fn opt(name: Seq<char>) -> CommandArgModel {
    CommandArgModel { name, required: false, choices: Seq::empty() }
}

/// The chat commands, in the order the help lists them.
pub open spec fn chat_table() -> Seq<CommandSpecModel> {
    seq![
        cmd("help"@, seq![]),
        cmd("where"@, seq![]),
        cmd("ability_values"@, seq![]),
        cmd("damage"@, seq![req("amount"@), req("distance"@), opt("type"@)]),
        cmd("drop"@, seq![req("type"@), req("id"@), opt("quantity"@), opt("socket"@), opt("gem"@), opt("grade"@)]),
        cmd("item"@, seq![req("type"@), req("id"@), opt("quantity"@), opt("socket"@), opt("gem"@), opt("grade"@)]),
        cmd("mm"@, seq![req("zone"@), opt("x"@), opt("y"@)]),
        cmd("mon"@, seq![req("id"@), req("count"@), opt("distance"@), opt("team"@)]),
        cmd("level"@, seq![req("level"@)]),
        cmd("bot"@, seq![req("n"@)]),
        cmd("snowball_fight"@, seq![req("n"@)]),
        cmd("shop"@, seq![req("item_type"@)]),
        cmd("add"@, seq![req("ability_type"@), req("value"@)]),
        cmd("set"@, seq![req("ability_type"@), req("value"@)]),
        cmd("speed"@, seq![req("speed"@)]),
        cmd("skill"@, seq![CommandArgModel { name: "cmd"@, required: true, choices: seq!["add"@, "remove"@] }, req("id"@)]),
    ]
}

/// The GM commands, in the order the help lists them.
pub open spec fn gm_table() -> Seq<CommandSpecModel> {
    seq![
        cmd("help"@, seq![]),
        cmd("where"@, seq![]),
        cmd("ability_values"@, seq![]),
        cmd("mm"@, seq![req("zone"@), opt("x"@), opt("y"@)]),
        cmd("level"@, seq![req("level"@)]),
        cmd("bot"@, seq![req("n"@)]),
        cmd("shop"@, seq![req("item_type"@)]),
        cmd("add"@, seq![req("ability_type"@), req("value"@)]),
        cmd("speed"@, seq![req("speed"@)]),
    ]
}

fn command(name: &str, args: Vec<CommandArg>) -> (c: CommandSpec)
    ensures
        c@ == cmd(name@, args@.map_values(|a: CommandArg| a@)),
{
    CommandSpec { name: String::from_str(name), args }
}

fn no_args() -> (args: Vec<CommandArg>)
    ensures
        args@.map_values(|a: CommandArg| a@) == Seq::<CommandArgModel>::empty(),
{
    let args: Vec<CommandArg> = Vec::new();
    assert(args@.map_values(|a: CommandArg| a@) =~= Seq::<CommandArgModel>::empty());
    args
}

fn args1(a: CommandArg) -> (args: Vec<CommandArg>)
    ensures
        args@.map_values(|x: CommandArg| x@) == seq![a@],
{
    let mut args: Vec<CommandArg> = Vec::new();
    args.push(a);
    assert(args@.map_values(|x: CommandArg| x@) =~= seq![a@]);
    args
}

fn args2(a: CommandArg, b: CommandArg) -> (args: Vec<CommandArg>)
    ensures
        args@.map_values(|x: CommandArg| x@) == seq![a@, b@],
{
    let mut args: Vec<CommandArg> = Vec::new();
    args.push(a);
    args.push(b);
    assert(args@.map_values(|x: CommandArg| x@) =~= seq![a@, b@]);
    args
}

fn args3(a: CommandArg, b: CommandArg, c: CommandArg) -> (args: Vec<CommandArg>)
    ensures
        args@.map_values(|x: CommandArg| x@) == seq![a@, b@, c@],
{
    let mut args: Vec<CommandArg> = Vec::new();
    args.push(a);
    args.push(b);
    args.push(c);
    assert(args@.map_values(|x: CommandArg| x@) =~= seq![a@, b@, c@]);
    args
}

fn args4(a: CommandArg, b: CommandArg, c: CommandArg, d: CommandArg) -> (args: Vec<CommandArg>)
    ensures
        args@.map_values(|x: CommandArg| x@) == seq![a@, b@, c@, d@],
{
    let mut args: Vec<CommandArg> = Vec::new();
    args.push(a);
    args.push(b);
    args.push(c);
    args.push(d);
    assert(args@.map_values(|x: CommandArg| x@) =~= seq![a@, b@, c@, d@]);
    args
}

fn item_args() -> (args: Vec<CommandArg>)
    ensures
        args@.map_values(|x: CommandArg| x@) == seq![req("type"@), req("id"@), opt("quantity"@), opt("socket"@), opt("gem"@), opt("grade"@)],
{
    let mut args: Vec<CommandArg> = Vec::new();
    args.push(arg("type", true));
    args.push(arg("id", true));
    args.push(arg("quantity", false));
    args.push(arg("socket", false));
    args.push(arg("gem", false));
    args.push(arg("grade", false));
    assert(args@.map_values(|x: CommandArg| x@) =~= seq![req("type"@), req("id"@), opt("quantity"@), opt("socket"@), opt("gem"@), opt("grade"@)]);
    args
}

fn skill_args() -> (args: Vec<CommandArg>)
    ensures
        args@.map_values(|x: CommandArg| x@) == seq![CommandArgModel { name: "cmd"@, required: true, choices: seq!["add"@, "remove"@] }, req("id"@)],
{
    let mut choices: Vec<String> = Vec::new();
    choices.push(String::from_str("add"));
    choices.push(String::from_str("remove"));
    assert(choices@.map_values(|c: String| c@) =~= seq!["add"@, "remove"@]);
    let cmd_arg = CommandArg { name: String::from_str("cmd"), required: true, choices };
    args2(cmd_arg, arg("id", true))
}

/// The table of chat commands.
pub fn chat_commands() -> (table: Vec<CommandSpec>)
    ensures
        table_view(table@) == chat_table(),
{
    let mut table: Vec<CommandSpec> = Vec::new();
    table.push(command("help", no_args()));
    table.push(command("where", no_args()));
    table.push(command("ability_values", no_args()));
    table.push(command("damage", args3(arg("amount", true), arg("distance", true), arg("type", false))));
    table.push(command("drop", item_args()));
    table.push(command("item", item_args()));
    table.push(command("mm", args3(arg("zone", true), arg("x", false), arg("y", false))));
    table.push(command("mon", args4(arg("id", true), arg("count", true), arg("distance", false), arg("team", false))));
    table.push(command("level", args1(arg("level", true))));
    table.push(command("bot", args1(arg("n", true))));
    table.push(command("snowball_fight", args1(arg("n", true))));
    table.push(command("shop", args1(arg("item_type", true))));
    table.push(command("add", args2(arg("ability_type", true), arg("value", true))));
    table.push(command("set", args2(arg("ability_type", true), arg("value", true))));
    table.push(command("speed", args1(arg("speed", true))));
    table.push(command("skill", skill_args()));
    assert(table_view(table@) =~= chat_table());
    table
}

/// The table of GM commands.
pub fn gm_commands() -> (table: Vec<CommandSpec>)
    ensures
        table_view(table@) == gm_table(),
{
    let mut table: Vec<CommandSpec> = Vec::new();
    table.push(command("help", no_args()));
    table.push(command("where", no_args()));
    table.push(command("ability_values", no_args()));
    table.push(command("mm", args3(arg("zone", true), arg("x", false), arg("y", false))));
    table.push(command("level", args1(arg("level", true))));
    table.push(command("bot", args1(arg("n", true))));
    table.push(command("shop", args1(arg("item_type", true))));
    table.push(command("add", args2(arg("ability_type", true), arg("value", true))));
    table.push(command("speed", args1(arg("speed", true))));
    assert(table_view(table@) =~= gm_table());
    table
}

/// The help whispered for the chat commands: one line per command.
pub fn send_chat_commands_help() -> (lines: Vec<String>)
    ensures
        lines@.len() == chat_table().len(),
        forall|i: int| 0 <= i < chat_table().len() ==> #[trigger] lines@[i]@ == help_line(chat_table()[i]),
{
    let table = chat_commands();
    let lines = command_help_lines(&table);
    assert forall|i: int| 0 <= i < chat_table().len() implies #[trigger] lines@[i]@ == help_line(chat_table()[i]) by {
        assert(table@[i]@ == table_view(table@)[i]);
    }
    lines
}

/// The help whispered for the GM commands: one line per command.
pub fn send_gm_commands_help() -> (lines: Vec<String>)
    ensures
        lines@.len() == gm_table().len(),
        forall|i: int| 0 <= i < gm_table().len() ==> #[trigger] lines@[i]@ == help_line(gm_table()[i]),
{
    let table = gm_commands();
    let lines = command_help_lines(&table);
    assert forall|i: int| 0 <= i < gm_table().len() implies #[trigger] lines@[i]@ == help_line(gm_table()[i]) by {
        assert(table@[i]@ == table_view(table@)[i]);
    }
    lines
}

/// The whispers a multi-line text is sent as: one per line.
pub fn send_multiline_whisper(text: &str) -> (whispers: Vec<String>)
    ensures
        whispers@.len() == lines_from(text@, 0).len(),
        forall|i: int| 0 <= i < whispers@.len() ==> #[trigger] whispers@[i]@ == lines_from(text@, 0)[i],
{
    text_lines(text)
}

/// The ability the `add` command names.
pub open spec fn add_ability_type(name: Seq<char>) -> Option<AbilityType> {
    if name == "strength"@ { Some(AbilityType::Strength) }
    else if name == "dexterity"@ { Some(AbilityType::Dexterity) }
    else if name == "intelligence"@ { Some(AbilityType::Intelligence) }
    else if name == "concentration"@ { Some(AbilityType::Concentration) }
    else if name == "charm"@ { Some(AbilityType::Charm) }
    else if name == "sense"@ { Some(AbilityType::Sense) }
    else if name == "bonus_point"@ { Some(AbilityType::BonusPoint) }
    else if name == "skillpoint"@ { Some(AbilityType::Skillpoint) }
    else if name == "money"@ { Some(AbilityType::Money) }
    else if name == "stamina"@ { Some(AbilityType::Stamina) }
    else if name == "health"@ { Some(AbilityType::Health) }
    else if name == "mana"@ { Some(AbilityType::Mana) }
    else if name == "experience"@ { Some(AbilityType::Experience) }
    else if name == "level"@ { Some(AbilityType::Level) }
    else { union_point_type(name) }
}

/// The union point counters, by name.
pub open spec fn union_point_type(name: Seq<char>) -> Option<AbilityType> {
    if name == "union_point1"@ { Some(AbilityType::UnionPoint1) }
    else if name == "union_point2"@ { Some(AbilityType::UnionPoint2) }
    else if name == "union_point3"@ { Some(AbilityType::UnionPoint3) }
    else if name == "union_point4"@ { Some(AbilityType::UnionPoint4) }
    else if name == "union_point5"@ { Some(AbilityType::UnionPoint5) }
    else if name == "union_point6"@ { Some(AbilityType::UnionPoint6) }
    else if name == "union_point7"@ { Some(AbilityType::UnionPoint7) }
    else if name == "union_point8"@ { Some(AbilityType::UnionPoint8) }
    else if name == "union_point9"@ { Some(AbilityType::UnionPoint9) }
    else if name == "union_point10"@ { Some(AbilityType::UnionPoint10) }
    else { None }
}

/// The ability the `set` command names.
pub open spec fn set_ability_type(name: Seq<char>) -> Option<AbilityType> {
    if name == "gender"@ { Some(AbilityType::Gender) }
    else if name == "face"@ { Some(AbilityType::Face) }
    else if name == "hair"@ { Some(AbilityType::Hair) }
    else if name == "job"@ { Some(AbilityType::Class) }
    else if name == "strength"@ { Some(AbilityType::Strength) }
    else if name == "dexterity"@ { Some(AbilityType::Dexterity) }
    else if name == "intelligence"@ { Some(AbilityType::Intelligence) }
    else if name == "concentration"@ { Some(AbilityType::Concentration) }
    else if name == "charm"@ { Some(AbilityType::Charm) }
    else if name == "sense"@ { Some(AbilityType::Sense) }
    else if name == "health"@ { Some(AbilityType::Health) }
    else if name == "mana"@ { Some(AbilityType::Mana) }
    else if name == "experience"@ { Some(AbilityType::Experience) }
    else if name == "level"@ { Some(AbilityType::Level) }
    else if name == "pvp_flag"@ { Some(AbilityType::PvpFlag) }
    else if name == "team_number"@ { Some(AbilityType::TeamNumber) }
    else if name == "union"@ { Some(AbilityType::Union) }
    else { union_point_type(name) }
}

fn union_point_type_of(name: &str) -> (t: Option<AbilityType>)
    ensures
        t == union_point_type(name@),
{
    if str_eq(name, "union_point1") { Some(AbilityType::UnionPoint1) }
    else if str_eq(name, "union_point2") { Some(AbilityType::UnionPoint2) }
    else if str_eq(name, "union_point3") { Some(AbilityType::UnionPoint3) }
    else if str_eq(name, "union_point4") { Some(AbilityType::UnionPoint4) }
    else if str_eq(name, "union_point5") { Some(AbilityType::UnionPoint5) }
    else if str_eq(name, "union_point6") { Some(AbilityType::UnionPoint6) }
    else if str_eq(name, "union_point7") { Some(AbilityType::UnionPoint7) }
    else if str_eq(name, "union_point8") { Some(AbilityType::UnionPoint8) }
    else if str_eq(name, "union_point9") { Some(AbilityType::UnionPoint9) }
    else if str_eq(name, "union_point10") { Some(AbilityType::UnionPoint10) }
    else { None }
}

/// Reads the ability name of the `add` command.
pub fn add_ability_type_of(name: &str) -> (t: Option<AbilityType>)
    ensures
        t == add_ability_type(name@),
{
    if str_eq(name, "strength") { Some(AbilityType::Strength) }
    else if str_eq(name, "dexterity") { Some(AbilityType::Dexterity) }
    else if str_eq(name, "intelligence") { Some(AbilityType::Intelligence) }
    else if str_eq(name, "concentration") { Some(AbilityType::Concentration) }
    else if str_eq(name, "charm") { Some(AbilityType::Charm) }
    else if str_eq(name, "sense") { Some(AbilityType::Sense) }
    else if str_eq(name, "bonus_point") { Some(AbilityType::BonusPoint) }
    else if str_eq(name, "skillpoint") { Some(AbilityType::Skillpoint) }
    else if str_eq(name, "money") { Some(AbilityType::Money) }
    else if str_eq(name, "stamina") { Some(AbilityType::Stamina) }
    else if str_eq(name, "health") { Some(AbilityType::Health) }
    else if str_eq(name, "mana") { Some(AbilityType::Mana) }
    else if str_eq(name, "experience") { Some(AbilityType::Experience) }
    else if str_eq(name, "level") { Some(AbilityType::Level) }
    else { union_point_type_of(name) }
}

/// Reads the ability name of the `set` command.
pub fn set_ability_type_of(name: &str) -> (t: Option<AbilityType>)
    ensures
        t == set_ability_type(name@),
{
    if str_eq(name, "gender") { Some(AbilityType::Gender) }
    else if str_eq(name, "face") { Some(AbilityType::Face) }
    else if str_eq(name, "hair") { Some(AbilityType::Hair) }
    else if str_eq(name, "job") { Some(AbilityType::Class) }
    else if str_eq(name, "strength") { Some(AbilityType::Strength) }
    else if str_eq(name, "dexterity") { Some(AbilityType::Dexterity) }
    else if str_eq(name, "intelligence") { Some(AbilityType::Intelligence) }
    else if str_eq(name, "concentration") { Some(AbilityType::Concentration) }
    else if str_eq(name, "charm") { Some(AbilityType::Charm) }
    else if str_eq(name, "sense") { Some(AbilityType::Sense) }
    else if str_eq(name, "health") { Some(AbilityType::Health) }
    else if str_eq(name, "mana") { Some(AbilityType::Mana) }
    else if str_eq(name, "experience") { Some(AbilityType::Experience) }
    else if str_eq(name, "level") { Some(AbilityType::Level) }
    else if str_eq(name, "pvp_flag") { Some(AbilityType::PvpFlag) }
    else if str_eq(name, "team_number") { Some(AbilityType::TeamNumber) }
    else if str_eq(name, "union") { Some(AbilityType::Union) }
    else { union_point_type_of(name) }
}

/// The argument at `i`, if given.
pub open spec fn arg_text(args: Seq<Seq<char>>, i: int) -> Option<Seq<char>> {
    if 0 <= i < args.len() { Some(args[i]) } else { None }
}

/// The argument at `i` read as an integer in `min..=max`, or `default`
/// when it is missing or unreadable.
pub open spec fn arg_int_or(args: Seq<Seq<char>>, i: int, min: int, max: int, default: int) -> int {
    match arg_text(args, i) {
        Some(t) => match parse_int(t, min, max) {
            Some(v) => v,
            None => default,
        },
        None => default,
    }
}

pub open spec fn invalid_ability_message(name: Seq<char>) -> Seq<char> {
    "Invalid ability type "@ + name
}

/// What each chat command asks for, its arguments read (`k` is the
/// command's place in `chat_table`). Zone, NPC and skill ids are never
/// zero.
pub open spec fn spec_chat_action(k: int, args: Seq<Seq<char>>) -> Result<ChatAction, ChatCommandErrorModel> {
    let bad = Err(ChatCommandErrorModel::InvalidArguments);
    if k == 0 {
        Ok(ChatAction::Help)
    } else if k == 1 {
        Ok(ChatAction::Where)
    } else if k == 2 {
        Ok(ChatAction::AbilityValues)
    } else if k == 3 {
        match parse_int(args[0], 0, u32::MAX as int) {
            None => bad,
            Some(a) => if !float_text(args[1]) {
                bad
            } else {
                Ok(ChatAction::Damage {
                    amount: a as u32,
                    critical: arg_text(args, 2) == Some("crit"@),
                    hit_stun: arg_text(args, 2) == Some("hit"@),
                })
            },
        }
    } else if k == 4 || k == 5 {
        match parse_int(args[0], 0, usize::MAX as int) {
            None => bad,
            Some(t) => Ok(ChatAction::Item {
                drop: k == 4,
                item_type: t as usize,
                item_number: match parse_int(args[1], 0, usize::MAX as int) {
                    Some(n) => Some(n as usize),
                    None => None,
                },
                quantity: arg_int_or(args, 2, 0, u32::MAX as int, 1) as u32,
                has_socket: arg_int_or(args, 3, 0, u8::MAX as int, 0) != 0,
                gem: arg_int_or(args, 4, 0, u16::MAX as int, 0) as u16,
                grade: arg_int_or(args, 5, 0, u8::MAX as int, 0) as u8,
            }),
        }
    } else if k == 6 {
        match parse_int(args[0], 0, u16::MAX as int) {
            None => bad,
            Some(z) => if z == 0 || (args.len() == 3 && !(float_text(args[1]) && float_text(args[2]))) {
                bad
            } else {
                Ok(ChatAction::Teleport { zone: z as u16, has_position: args.len() == 3 })
            },
        }
    } else if k == 7 {
        match parse_int(args[0], 0, u16::MAX as int) {
            None => bad,
            Some(id) => if id == 0 {
                bad
            } else {
                match parse_int(args[1], 0, usize::MAX as int) {
                    None => bad,
                    Some(count) => Ok(ChatAction::Monster {
                        npc_id: id as u16,
                        count: count as usize,
                        distance: arg_int_or(args, 2, i32::MIN as int, i32::MAX as int, 250) as i32,
                        team: match arg_text(args, 3) {
                            Some(t) => match parse_int(t, 0, u32::MAX as int) {
                                Some(v) => Some(v as u32),
                                None => None,
                            },
                            None => None,
                        },
                    }),
                }
            },
        }
    } else if k == 8 {
        match parse_int(args[0], 0, u32::MAX as int) {
            None => bad,
            Some(l) => Ok(ChatAction::Level { level: l as u32 }),
        }
    } else if k == 9 || k == 10 || k == 11 {
        match parse_int(args[0], 0, usize::MAX as int) {
            None => bad,
            Some(n) => Ok(if k == 9 {
                ChatAction::Bot { count: n as usize }
            } else if k == 10 {
                ChatAction::SnowballFight { count: n as usize }
            } else {
                ChatAction::Shop { item_type: n as usize }
            }),
        }
    } else if k == 12 || k == 13 {
        match parse_int(args[1], i32::MIN as int, i32::MAX as int) {
            None => bad,
            Some(v) => {
                let ability = if k == 12 { add_ability_type(args[0]) } else { set_ability_type(args[0]) };
                match ability {
                    None => Err(ChatCommandErrorModel::WithMessage(invalid_ability_message(args[0]))),
                    Some(a) => Ok(if k == 12 {
                        ChatAction::AddAbility { ability: a, value: v as i32 }
                    } else {
                        ChatAction::SetAbility { ability: a, value: v as i32 }
                    }),
                }
            },
        }
    } else if k == 14 {
        match parse_int(args[0], i32::MIN as int, i32::MAX as int) {
            None => bad,
            Some(v) => Ok(ChatAction::Speed { speed: v as i32 }),
        }
    } else {
        match parse_int(args[1], 0, u16::MAX as int) {
            None => bad,
            Some(id) => if id == 0 { bad } else { Ok(ChatAction::Skill { add: args[0] == "add"@, skill_id: id as u16 }) },
        }
    }
}

/// The meaning of a chat command line (the text after the slash).
pub open spec fn spec_chat_command(text: Seq<char>) -> Result<(ChatAction, Seq<Seq<char>>), ChatCommandErrorModel> {
    match shell_split(text) {
        None => Err(ChatCommandErrorModel::InvalidCommand),
        Some(words) => match spec_parse(chat_table(), words) {
            Err(CommandLineError::Invalid) => Err(ChatCommandErrorModel::InvalidCommand),
            Err(CommandLineError::MissingArgument) => Err(ChatCommandErrorModel::InvalidArguments),
            Ok((k, args)) => match spec_chat_action(k, args) {
                Ok(action) => Ok((action, args)),
                Err(e) => Err(e),
            },
        },
    }
}

fn parse_arg(args: &Vec<String>, i: usize, min: i128, max: i128) -> (v: Option<i128>)
    requires
        -0x1_0000_0000_0000_0000 <= min <= 0 <= max <= 0x1_0000_0000_0000_0000,
    ensures
        match arg_text(words_view(args@), i as int) {
            Some(t) => match parse_int(t, min as int, max as int) {
                Some(x) => v == Some(x as i128),
                None => v is None,
            },
            None => v is None,
        },
{
    if i < args.len() {
        assert(words_view(args@)[i as int] == args@[i as int]@);
        parse_integer(args[i].as_str(), min, max)
    } else {
        None
    }
}

fn arg_is(args: &Vec<String>, i: usize, word: &str) -> (same: bool)
    ensures
        same == (arg_text(words_view(args@), i as int) == Some(word@)),
{
    if i < args.len() {
        assert(words_view(args@)[i as int] == args@[i as int]@);
        str_eq(args[i].as_str(), word)
    } else {
        false
    }
}

/// Reads the arguments of the chat command at `k` of the table.
fn decode_chat_action(k: usize, args: &Vec<String>) -> (result: Result<ChatAction, ChatCommandError>)
    requires
        k < chat_table().len(),
        args@.len() <= chat_table()[k as int].args.len(),
        !missing_required(chat_table()[k as int], words_view(args@)),
    ensures
        match spec_chat_action(k as int, words_view(args@)) {
            Ok(a) => result == Ok::<ChatAction, ChatCommandError>(a),
            Err(e) => result matches Err(re) && re@ == e,
        },
{
    let ghost w = words_view(args@);
    let ghost spec = chat_table()[k as int];
    proof {
        // required arguments come first, so they are all there
        if spec.args.len() > 0 && spec.args[0].required && args@.len() == 0 {
            assert(missing_required(spec, w));
        }
        if spec.args.len() > 1 && spec.args[1].required && args@.len() <= 1 {
            assert(missing_required(spec, w));
        }
    }
    let u32_max: i128 = 0xffff_ffff;
    let u16_max: i128 = 0xffff;
    let u8_max: i128 = 0xff;
    let usize_max: i128 = usize::MAX as i128;
    let i32_min: i128 = -0x8000_0000;
    let i32_max: i128 = 0x7fff_ffff;
    if k == 0 {
        Ok(ChatAction::Help)
    } else if k == 1 {
        Ok(ChatAction::Where)
    } else if k == 2 {
        Ok(ChatAction::AbilityValues)
    } else if k == 3 {
        match parse_arg(args, 0, 0, u32_max) {
            None => Err(ChatCommandError::InvalidArguments),
            Some(a) => if !is_float_text(args[1].as_str()) {
                Err(ChatCommandError::InvalidArguments)
            } else {
                Ok(ChatAction::Damage {
                    amount: a as u32,
                    critical: arg_is(args, 2, "crit"),
                    hit_stun: arg_is(args, 2, "hit"),
                })
            },
        }
    } else if k == 4 || k == 5 {
        match parse_arg(args, 0, 0, usize_max) {
            None => Err(ChatCommandError::InvalidArguments),
            Some(t) => {
                let item_number = match parse_arg(args, 1, 0, usize_max) {
                    Some(n) => Some(n as usize),
                    None => None,
                };
                let quantity = match parse_arg(args, 2, 0, u32_max) { Some(q) => q as u32, None => 1 };
                let socket = match parse_arg(args, 3, 0, u8_max) { Some(q) => q, None => 0 };
                let gem = match parse_arg(args, 4, 0, u16_max) { Some(q) => q as u16, None => 0 };
                let grade = match parse_arg(args, 5, 0, u8_max) { Some(q) => q as u8, None => 0 };
                Ok(ChatAction::Item {
                    drop: k == 4,
                    item_type: t as usize,
                    item_number,
                    quantity,
                    has_socket: socket != 0,
                    gem,
                    grade,
                })
            },
        }
    } else if k == 6 {
        match parse_arg(args, 0, 0, u16_max) {
            None => Err(ChatCommandError::InvalidArguments),
            Some(z) => if z == 0 || (args.len() == 3 && !(is_float_text(args[1].as_str()) && is_float_text(args[2].as_str()))) {
                Err(ChatCommandError::InvalidArguments)
            } else {
                Ok(ChatAction::Teleport { zone: z as u16, has_position: args.len() == 3 })
            },
        }
    } else if k == 7 {
        match parse_arg(args, 0, 0, u16_max) {
            None => Err(ChatCommandError::InvalidArguments),
            Some(id) => {
                if id == 0 {
                    return Err(ChatCommandError::InvalidArguments);
                }
                match parse_arg(args, 1, 0, usize_max) {
                    None => Err(ChatCommandError::InvalidArguments),
                    Some(count) => {
                        let distance = match parse_arg(args, 2, i32_min, i32_max) { Some(d) => d as i32, None => 250 };
                        let team = match parse_arg(args, 3, 0, u32_max) { Some(t) => Some(t as u32), None => None };
                        Ok(ChatAction::Monster { npc_id: id as u16, count: count as usize, distance, team })
                    },
                }
            },
        }
    } else if k == 8 {
        match parse_arg(args, 0, 0, u32_max) {
            None => Err(ChatCommandError::InvalidArguments),
            Some(l) => Ok(ChatAction::Level { level: l as u32 }),
        }
    } else if k == 9 || k == 10 || k == 11 {
        match parse_arg(args, 0, 0, usize_max) {
            None => Err(ChatCommandError::InvalidArguments),
            Some(n) => Ok(if k == 9 {
                ChatAction::Bot { count: n as usize }
            } else if k == 10 {
                ChatAction::SnowballFight { count: n as usize }
            } else {
                ChatAction::Shop { item_type: n as usize }
            }),
        }
    } else if k == 12 || k == 13 {
        match parse_arg(args, 1, i32_min, i32_max) {
            None => Err(ChatCommandError::InvalidArguments),
            Some(v) => {
                assert(w[0] == args@[0]@);
                let ability = if k == 12 {
                    add_ability_type_of(args[0].as_str())
                } else {
                    set_ability_type_of(args[0].as_str())
                };
                match ability {
                    None => {
                        let mut message = String::from_str("Invalid ability type ");
                        message.append(args[0].as_str());
                        Err(ChatCommandError::WithMessage(message))
                    },
                    Some(a) => Ok(if k == 12 {
                        ChatAction::AddAbility { ability: a, value: v as i32 }
                    } else {
                        ChatAction::SetAbility { ability: a, value: v as i32 }
                    }),
                }
            },
        }
    } else if k == 14 {
        match parse_arg(args, 0, i32_min, i32_max) {
            None => Err(ChatCommandError::InvalidArguments),
            Some(v) => Ok(ChatAction::Speed { speed: v as i32 }),
        }
    } else {
        match parse_arg(args, 1, 0, u16_max) {
            None => Err(ChatCommandError::InvalidArguments),
            Some(id) => if id == 0 {
                Err(ChatCommandError::InvalidArguments)
            } else {
                Ok(ChatAction::Skill { add: arg_is(args, 0, "add"), skill_id: id as u16 })
            },
        }
    }
}

/// Reads a chat command line (the text after the slash): the action it
/// asks for, with the words given as its arguments.
pub fn handle_chat_command(command_text: &str) -> (result: Result<(ChatAction, Vec<String>), ChatCommandError>)
    ensures
        match spec_chat_command(command_text@) {
            Ok((action, args)) => result matches Ok((ra, rargs)) && ra == action && words_view(rargs@) == args,
            Err(e) => result matches Err(re) && re@ == e,
        },
{
    let words = match split_words(command_text) {
        Ok(words) => words,
        Err(_) => return Err(ChatCommandError::InvalidCommand),
    };
    let table = chat_commands();
    match parse_command(&table, &words) {
        Err(CommandLineError::Invalid) => Err(ChatCommandError::InvalidCommand),
        Err(CommandLineError::MissingArgument) => Err(ChatCommandError::InvalidArguments),
        Ok((k, args)) => {
            proof {
                let w = words_view(words@);
                assert(w.len() > 0);
            }
            match decode_chat_action(k, &args) {
                Ok(action) => Ok((action, args)),
                Err(e) => Err(e),
            }
        },
    }
}

/// What a GM command asks for, with its arguments read.
#[derive(Clone, Copy, Debug, PartialEq, Eq, Structural)]
pub enum GmAction {
    Where,
    AbilityValues,
    Teleport { zone: u16, has_position: bool },
    Level { level: u32 },
    Bot { count: usize },
    Shop { item_type: i32 },
    AddAbility { ability: AbilityType, value: i32 },
    Speed { speed: i32 },
}

/// What each GM command asks for (`k` is its place in `gm_table`); zone ids
/// are never zero. No GM
/// command carries out `help`: it is refused, and the caller then whispers
/// the help.
pub open spec fn spec_gm_action(k: int, args: Seq<Seq<char>>) -> Result<GmAction, GMCommandError> {
    let bad = Err(GMCommandError::InvalidArguments);
    if k == 0 {
        Err(GMCommandError::InvalidCommand)
    } else if k == 1 {
        Ok(GmAction::Where)
    } else if k == 2 {
        Ok(GmAction::AbilityValues)
    } else if k == 3 {
        match parse_int(args[0], 0, u16::MAX as int) {
            None => bad,
            Some(z) => if z == 0 || (args.len() == 3 && !(float_text(args[1]) && float_text(args[2]))) {
                bad
            } else {
                Ok(GmAction::Teleport { zone: z as u16, has_position: args.len() == 3 })
            },
        }
    } else if k == 4 {
        match parse_int(args[0], 0, u32::MAX as int) {
            None => bad,
            Some(l) => Ok(GmAction::Level { level: l as u32 }),
        }
    } else if k == 5 {
        match parse_int(args[0], 0, usize::MAX as int) {
            None => bad,
            Some(n) => Ok(GmAction::Bot { count: n as usize }),
        }
    } else if k == 6 {
        match parse_int(args[0], i32::MIN as int, i32::MAX as int) {
            None => bad,
            Some(t) => Ok(GmAction::Shop { item_type: t as i32 }),
        }
    } else if k == 7 {
        match parse_int(args[1], i32::MIN as int, i32::MAX as int) {
            None => bad,
            Some(v) => match add_ability_type(args[0]) {
                None => bad,
                Some(a) => Ok(GmAction::AddAbility { ability: a, value: v as i32 }),
            },
        }
    } else {
        match parse_int(args[0], i32::MIN as int, i32::MAX as int) {
            None => bad,
            Some(v) => Ok(GmAction::Speed { speed: v as i32 }),
        }
    }
}

/// The meaning of a GM command line (the text after the slash).
pub open spec fn spec_gm_command(text: Seq<char>) -> Result<(GmAction, Seq<Seq<char>>), GMCommandError> {
    match shell_split(text) {
        None => Err(GMCommandError::InvalidCommand),
        Some(words) => match spec_parse(gm_table(), words) {
            Err(CommandLineError::Invalid) => Err(GMCommandError::InvalidCommand),
            Err(CommandLineError::MissingArgument) => Err(GMCommandError::InvalidArguments),
            Ok((k, args)) => match spec_gm_action(k, args) {
                Ok(action) => Ok((action, args)),
                Err(e) => Err(e),
            },
        },
    }
}

fn decode_gm_action(k: usize, args: &Vec<String>) -> (result: Result<GmAction, GMCommandError>)
    requires
        k < gm_table().len(),
        args@.len() <= gm_table()[k as int].args.len(),
        !missing_required(gm_table()[k as int], words_view(args@)),
    ensures
        result == spec_gm_action(k as int, words_view(args@)),
{
    let ghost w = words_view(args@);
    let ghost spec = gm_table()[k as int];
    proof {
        if spec.args.len() > 0 && spec.args[0].required && args@.len() == 0 {
            assert(missing_required(spec, w));
        }
        if spec.args.len() > 1 && spec.args[1].required && args@.len() <= 1 {
            assert(missing_required(spec, w));
        }
    }
    let i32_min: i128 = -0x8000_0000;
    let i32_max: i128 = 0x7fff_ffff;
    if k == 0 {
        Err(GMCommandError::InvalidCommand)
    } else if k == 1 {
        Ok(GmAction::Where)
    } else if k == 2 {
        Ok(GmAction::AbilityValues)
    } else if k == 3 {
        match parse_arg(args, 0, 0, 0xffff) {
            None => Err(GMCommandError::InvalidArguments),
            Some(z) => if z == 0 || (args.len() == 3 && !(is_float_text(args[1].as_str()) && is_float_text(args[2].as_str()))) {
                Err(GMCommandError::InvalidArguments)
            } else {
                Ok(GmAction::Teleport { zone: z as u16, has_position: args.len() == 3 })
            },
        }
    } else if k == 4 {
        match parse_arg(args, 0, 0, 0xffff_ffff) {
            None => Err(GMCommandError::InvalidArguments),
            Some(l) => Ok(GmAction::Level { level: l as u32 }),
        }
    } else if k == 5 {
        match parse_arg(args, 0, 0, usize::MAX as i128) {
            None => Err(GMCommandError::InvalidArguments),
            Some(n) => Ok(GmAction::Bot { count: n as usize }),
        }
    } else if k == 6 {
        match parse_arg(args, 0, i32_min, i32_max) {
            None => Err(GMCommandError::InvalidArguments),
            Some(t) => Ok(GmAction::Shop { item_type: t as i32 }),
        }
    } else if k == 7 {
        match parse_arg(args, 1, i32_min, i32_max) {
            None => Err(GMCommandError::InvalidArguments),
            Some(v) => {
                assert(w[0] == args@[0]@);
                match add_ability_type_of(args[0].as_str()) {
                    None => Err(GMCommandError::InvalidArguments),
                    Some(a) => Ok(GmAction::AddAbility { ability: a, value: v as i32 }),
                }
            },
        }
    } else {
        match parse_arg(args, 0, i32_min, i32_max) {
            None => Err(GMCommandError::InvalidArguments),
            Some(v) => Ok(GmAction::Speed { speed: v as i32 }),
        }
    }
}

/// Reads a GM command line (the text after the slash): the action it asks
/// for, with the words given as its arguments.
pub fn handle_gm_command(command_text: &str) -> (result: Result<(GmAction, Vec<String>), GMCommandError>)
    ensures
        match spec_gm_command(command_text@) {
            Ok((action, args)) => result matches Ok((ra, rargs)) && ra == action && words_view(rargs@) == args,
            Err(e) => result == Err::<(GmAction, Vec<String>), GMCommandError>(e),
        },
{
    let words = match split_words(command_text) {
        Ok(words) => words,
        Err(_) => return Err(GMCommandError::InvalidCommand),
    };
    let table = gm_commands();
    match parse_command(&table, &words) {
        Err(CommandLineError::Invalid) => Err(GMCommandError::InvalidCommand),
        Err(CommandLineError::MissingArgument) => Err(GMCommandError::InvalidArguments),
        Ok((k, args)) => match decode_gm_action(k, &args) {
            Ok(action) => Ok((action, args)),
            Err(e) => Err(e),
        },
    }
}

/// The kinds of entities a zone lists.
#[derive(Clone, Copy, Debug, PartialEq, Eq, Structural)]
pub enum ClientEntityKind {
    Character,
    Monster,
    Npc,
    DroppedItem,
}

/// The entities a "damage" command hits among those within its distance,
/// in order: characters and monsters other than the user.
pub open spec fn damage_targets(user: u64, nearby: Seq<(u64, ClientEntityKind)>) -> Seq<u64>
    decreases nearby.len(),
{
    if nearby.len() == 0 {
        Seq::empty()
    } else {
        let (entity, kind) = nearby.last();
        let before = damage_targets(user, nearby.drop_last());
        if entity != user && (kind == ClientEntityKind::Character || kind == ClientEntityKind::Monster) {
            before.push(entity)
        } else {
            before
        }
    }
}

/// The entities a "damage" command hits: of the entities of the user's zone
/// within the distance (measured by the caller), the characters and
/// monsters other than the user.
pub fn damage_command_targets(user: u64, nearby: &Vec<(u64, ClientEntityKind)>) -> (targets: Vec<u64>)
    ensures
        targets@ == damage_targets(user, nearby@),
{
    let mut targets: Vec<u64> = Vec::new();
    let mut i: usize = 0;
    while i < nearby.len()
        invariant
            i <= nearby.len(),
            targets@ == damage_targets(user, nearby@.take(i as int)),
        decreases nearby.len() - i,
    {
        let (entity, kind) = nearby[i];
        assert(nearby@.take(i as int + 1).drop_last() =~= nearby@.take(i as int));
        assert(nearby@.take(i as int + 1).last() == nearby@[i as int]);
        if entity != user && (kind == ClientEntityKind::Character || kind == ClientEntityKind::Monster) {
            targets.push(entity);
        }
        i += 1;
    }
    assert(nearby@.take(nearby@.len() as int) =~= nearby@);
    targets
}

pub open spec fn reply_texts(command: Seq<char>, error: Option<ChatCommandErrorModel>) -> Seq<Seq<char>> {
    match error {
        None => seq!["Success: "@ + command],
        Some(ChatCommandErrorModel::InvalidCommand) => seq!["Failed: "@ + command, "Invalid command"@],
        Some(ChatCommandErrorModel::InvalidArguments) => seq!["Failed: "@ + command, "Invalid argument"@],
        Some(ChatCommandErrorModel::WithMessage(message)) => seq!["Failed: "@ + command, message],
    }
}

/// What the user is told after a chat command (`command` with its slash):
/// that it succeeded, or that it failed and why. Each text is whispered
/// line by line.
pub fn chat_command_replies(command: &str, error: Option<&ChatCommandError>) -> (texts: Vec<String>)
    ensures
        texts@.map_values(|t: String| t@) == reply_texts(command@, match error { Some(e) => Some(e@), None => None }),
{
    let mut texts: Vec<String> = Vec::new();
    match error {
        None => {
            let mut t = String::from_str("Success: ");
            t.append(command);
            texts.push(t);
        },
        Some(e) => {
            let mut t = String::from_str("Failed: ");
            t.append(command);
            texts.push(t);
            match e {
                ChatCommandError::InvalidCommand => texts.push(String::from_str("Invalid command")),
                ChatCommandError::InvalidArguments => texts.push(String::from_str("Invalid argument")),
                ChatCommandError::WithMessage(m) => texts.push(m.clone()),
            }
        },
    }
    proof {
        let expected = reply_texts(command@, match error { Some(e) => Some(e@), None => None });
        assert(texts@.map_values(|t: String| t@) =~= expected);
    }
    texts
}

} // verus!

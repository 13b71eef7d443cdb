use vstd::prelude::*;
use crate::stats::{BasicStats, Inventory, Money, StatPoints};

verus! {

/// Whether a chat line is a command: it starts with a slash.
pub fn is_chat_command(text: &str) -> (command: bool)
    ensures
        command == (text@.len() > 0 && text@[0] == '/'),
{
    text.unicode_len() > 0 && text.get_char(0) == '/'
}

/// How a character moves.
#[derive(Clone, Copy, Debug, PartialEq, Eq, Structural)]
pub enum MoveMode {
    Walk,
    Run,
    Drive,
}

/// Toggling between walking and running; a driving character keeps
/// driving (`None`: nothing changes and nothing is announced).
pub fn run_toggle(mode: MoveMode) -> (next: Option<MoveMode>)
    ensures
        next == match mode {
            MoveMode::Walk => Some(MoveMode::Run),
            MoveMode::Run => Some(MoveMode::Walk),
            MoveMode::Drive => None::<MoveMode>,
        },
{
    match mode {
        MoveMode::Walk => Some(MoveMode::Run),
        MoveMode::Run => Some(MoveMode::Walk),
        MoveMode::Drive => None,
    }
}

/// Toggling driving: on foot a character starts driving, a driver gets out
/// running.
pub fn drive_toggle(mode: MoveMode) -> (next: MoveMode)
    ensures
        next == (if mode == MoveMode::Drive { MoveMode::Run } else { MoveMode::Drive }),
{
    match mode {
        MoveMode::Walk | MoveMode::Run => MoveMode::Drive,
        MoveMode::Drive => MoveMode::Run,
    }
}

/// Sitting down when standing, standing up when sitting: whether the next
/// command is to sit.
pub fn sit_toggle(is_sitting: bool) -> (sit: bool)
    ensures
        sit == !is_sitting,
{
    !is_sitting
}

/// Dropping money: at most what the inventory holds leaves it. Returns the
/// amount dropped on the ground; nothing is dropped when it is not
/// positive.
pub fn drop_money(inventory: &mut Inventory, quantity: usize) -> (dropped: Option<Money>)
    requires
        (quantity as i64) > old(inventory).money.0 || old(inventory).money.0 - (quantity as i64) <= i64::MAX,
    ensures
        ({
            let asked = quantity as i64;
            let held = old(inventory).money.0;
            let amount = if asked > held { held } else { asked };
            &&& final(inventory).money.0 == (if asked > held { 0 } else { held - asked })
            &&& dropped == (if amount > 0 { Some(Money(amount)) } else { None::<Money> })
        }),
{
    let mut money = Money(quantity as i64);
    if money.0 > inventory.money.0 {
        money = inventory.money;
        inventory.money = Money(0);
    } else {
        inventory.money = Money(inventory.money.0 - money.0);
    }
    if money.0 > 0 {
        Some(money)
    } else {
        None
    }
}

/// How many items leave a stack when a character drops `quantity` of it:
/// no more than the stack holds.
pub fn drop_item_quantity(quantity: usize, available: Option<u32>) -> (amount: u32)
    ensures
        amount == (if (quantity as u32) < (match available { Some(a) => a, None => 0u32 }) {
            quantity as u32
        } else {
            match available { Some(a) => a, None => 0u32 }
        }),
{
    let requested = quantity as u32;
    let held: u32 = match available {
        Some(a) => a,
        None => 0,
    };
    if requested < held { requested } else { held }
}

/// The six basic stats that stat points raise.
#[derive(Clone, Copy, Debug, PartialEq, Eq, Structural)]
pub enum BasicStatType {
    Strength,
    Dexterity,
    Intelligence,
    Concentration,
    Charm,
    Sense,
}

pub open spec fn basic_stat(stats: BasicStats, stat: BasicStatType) -> u16 {
    match stat {
        BasicStatType::Strength => stats.strength,
        BasicStatType::Dexterity => stats.dexterity,
        BasicStatType::Intelligence => stats.intelligence,
        BasicStatType::Concentration => stats.concentration,
        BasicStatType::Charm => stats.charm,
        BasicStatType::Sense => stats.sense,
    }
}

pub open spec fn with_basic_stat(stats: BasicStats, stat: BasicStatType, value: u16) -> BasicStats {
    match stat {
        BasicStatType::Strength => BasicStats { strength: value, ..stats },
        BasicStatType::Dexterity => BasicStats { dexterity: value, ..stats },
        BasicStatType::Intelligence => BasicStats { intelligence: value, ..stats },
        BasicStatType::Concentration => BasicStats { concentration: value, ..stats },
        BasicStatType::Charm => BasicStats { charm: value, ..stats },
        BasicStatType::Sense => BasicStats { sense: value, ..stats },
    }
}

/// Each basic stat type reads the field of its own name; writing a stat
/// and reading it back gives the value written, and leaves every other
/// stat as it was.
pub proof fn law_basic_stat_reads_and_writes_its_own_field(stats: BasicStats, stat: BasicStatType, other: BasicStatType, value: u16)
    ensures
        basic_stat(stats, BasicStatType::Strength) == stats.strength,
        basic_stat(stats, BasicStatType::Dexterity) == stats.dexterity,
        basic_stat(stats, BasicStatType::Intelligence) == stats.intelligence,
        basic_stat(stats, BasicStatType::Concentration) == stats.concentration,
        basic_stat(stats, BasicStatType::Charm) == stats.charm,
        basic_stat(stats, BasicStatType::Sense) == stats.sense,
        basic_stat(with_basic_stat(stats, stat, value), stat) == value,
        other != stat ==> basic_stat(with_basic_stat(stats, stat, value), other) == basic_stat(stats, other),
{
}

/// Raising a basic stat by one, paid with stat points. `cost` is the price
/// the ability value rules ask, `None` when they refuse; the raise happens
/// only when the character holds more points than the price. Returns the
/// new value of the stat when it was raised.
pub fn increase_basic_stat(
    basic_stats: &mut BasicStats,
    stat_points: &mut StatPoints,
    stat: BasicStatType,
    cost: Option<u32>,
) -> (raised: Option<u16>)
    requires
        basic_stat(*old(basic_stats), stat) < u16::MAX,
    ensures
        match cost {
            Some(c) if c < old(stat_points).points => {
                &&& raised == Some((basic_stat(*old(basic_stats), stat) + 1) as u16)
                &&& *final(basic_stats) == with_basic_stat(*old(basic_stats), stat, (basic_stat(*old(basic_stats), stat) + 1) as u16)
                &&& final(basic_stats).strength == old(basic_stats).strength + if stat == BasicStatType::Strength { 1int } else { 0int }
                &&& final(basic_stats).dexterity == old(basic_stats).dexterity + if stat == BasicStatType::Dexterity { 1int } else { 0int }
                &&& final(basic_stats).intelligence == old(basic_stats).intelligence + if stat == BasicStatType::Intelligence { 1int } else { 0int }
                &&& final(basic_stats).concentration == old(basic_stats).concentration + if stat == BasicStatType::Concentration { 1int } else { 0int }
                &&& final(basic_stats).charm == old(basic_stats).charm + if stat == BasicStatType::Charm { 1int } else { 0int }
                &&& final(basic_stats).sense == old(basic_stats).sense + if stat == BasicStatType::Sense { 1int } else { 0int }
                &&& final(stat_points).points == old(stat_points).points - c
            },
            _ => raised is None && *final(basic_stats) == *old(basic_stats) && *final(stat_points) == *old(stat_points),
        },
{
    let c = match cost {
        Some(c) => c,
        None => return None,
    };
    if c >= stat_points.points {
        return None;
    }
    stat_points.points = stat_points.points - c;
    let value = match stat {
        BasicStatType::Strength => {
            basic_stats.strength = basic_stats.strength + 1;
            basic_stats.strength
        },
        BasicStatType::Dexterity => {
            basic_stats.dexterity = basic_stats.dexterity + 1;
            basic_stats.dexterity
        },
        BasicStatType::Intelligence => {
            basic_stats.intelligence = basic_stats.intelligence + 1;
            basic_stats.intelligence
        },
        BasicStatType::Concentration => {
            basic_stats.concentration = basic_stats.concentration + 1;
            basic_stats.concentration
        },
        BasicStatType::Charm => {
            basic_stats.charm = basic_stats.charm + 1;
            basic_stats.charm
        },
        BasicStatType::Sense => {
            basic_stats.sense = basic_stats.sense + 1;
            basic_stats.sense
        },
    };
    Some(value)
}

/// What happens to an entity with an expiry time.
#[derive(Clone, Copy, Debug, PartialEq, Eq, Structural)]
pub enum ExpireAction {
    /// Its time has not come.
    Keep,
    /// An entity that acts dies.
    Die,
    /// Any other is removed, leaving its zone first when it is in one.
    Despawn { leave_zone: bool },
}

/// The fate of an entity whose time runs out at `expire_at`, at time `now`
/// (both on the server's clock).
pub fn expire_action(now: u64, expire_at: u64, has_command: bool, in_zone: bool) -> (action: ExpireAction)
    ensures
        action == if now < expire_at {
            ExpireAction::Keep
        } else if has_command {
            ExpireAction::Die
        } else {
            ExpireAction::Despawn { leave_zone: in_zone }
        },
{
    if now < expire_at {
        ExpireAction::Keep
    } else if has_command {
        ExpireAction::Die
    } else {
        ExpireAction::Despawn { leave_zone: in_zone }
    }
}

/// An entity can be moved to when it is in the mover's zone.
pub fn is_valid_move_target(zone: u16, target_zone: Option<u16>) -> (valid: bool)
    ensures
        valid == (target_zone == Some(zone)),
{
    match target_zone {
        Some(z) => z == zone,
        None => false,
    }
}

/// An entity can be attacked when it is in the attacker's zone and alive.
/// `target` is the target's zone and health, when it has both.
pub fn is_valid_attack_target(zone: u16, target: Option<(u16, u32)>) -> (valid: bool)
    ensures
        valid == (target matches Some((z, hp)) && z == zone && hp > 0),
{
    match target {
        Some((z, hp)) => z == zone && hp > 0,
        None => false,
    }
}

/// Where a dead character asks to come back.
#[derive(Clone, Copy, Debug, PartialEq, Eq, Structural)]
pub enum ReviveRequestType {
    /// The revive point of its zone nearest to it.
    RevivePosition,
    /// The revive point it saved.
    SavePosition,
}

/// Only a dead character is revived, with full health and mana, at the
/// place it asked for (`None`: nothing happens).
pub fn revive_request(is_dead: bool, request: ReviveRequestType) -> (place: Option<ReviveRequestType>)
    ensures
        place == if is_dead { Some(request) } else { None },
{
    if is_dead { Some(request) } else { None }
}

/// The world clients told to return to character select when a game
/// client logs out asking for it: those holding the same login token, in
/// order (`world_clients` pairs each world client with its token).
pub open spec fn clients_with_token(world_clients: Seq<(u64, u32)>, token: u32) -> Seq<u64>
    decreases world_clients.len(),
{
    if world_clients.len() == 0 {
        Seq::empty()
    } else {
        let before = clients_with_token(world_clients.drop_last(), token);
        if world_clients.last().1 == token { before.push(world_clients.last().0) } else { before }
    }
}

pub fn logout_return_clients(world_clients: &Vec<(u64, u32)>, token: u32, to_character_select: bool) -> (clients: Vec<u64>)
    ensures
        clients@ == if to_character_select { clients_with_token(world_clients@, token) } else { Seq::empty() },
{
    let mut clients: Vec<u64> = Vec::new();
    if !to_character_select {
        return clients;
    }
    let mut i: usize = 0;
    while i < world_clients.len()
        invariant
            i <= world_clients.len(),
            clients@ == clients_with_token(world_clients@.take(i as int), token),
        decreases world_clients.len() - i,
    {
        let (client, client_token) = world_clients[i];
        assert(world_clients@.take(i as int + 1).drop_last() =~= world_clients@.take(i as int));
        assert(world_clients@.take(i as int + 1).last() == world_clients@[i as int]);
        if client_token == token {
            clients.push(client);
        }
        i += 1;
    }
    assert(world_clients@.take(world_clients@.len() as int) =~= world_clients@);
    clients
}

} // verus!

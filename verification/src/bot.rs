use vstd::prelude::*;
use rand::Rng;
use crate::loot::DroppedItem;

verus! {

/// `rand::Rng::gen_range` on `0..len` with the thread's generator: an index
/// drawn below `len`. It panics on an empty range, which is therefore ruled
/// out; nothing else is known of the draw.
#[verifier::external_body]
fn random_index(len: usize) -> (index: usize)
    requires
        len > 0,
    ensures
        index < len,
{
    rand::thread_rng().gen_range(0..len)
}

/// What a bot is doing.
#[derive(Clone, Copy, Debug, PartialEq, Eq, Structural)]
pub enum BotAiState {
    Farm,
    SnowballFight,
    PickupItem(u64),
}

/// A bot's mind: its state, the time since it last looked around, and the
/// party invitations (by inviting owner) it has not answered.
#[derive(Clone, Debug)]
pub struct BotAi {
    pub state: BotAiState,
    pub time_since_last_idle_check: u64,
    pub messages: Vec<u64>,
}

/// A dropped item near a bot, and whom it belongs to.
#[derive(Clone, Copy, Debug, PartialEq, Eq, Structural)]
pub struct ItemDropQuery {
    pub drop: Option<DroppedItem>,
    pub owner: Option<u64>,
}

/// An entity near a bot: its zone, team, and npc id if it is one.
#[derive(Clone, Copy, Debug, PartialEq, Eq, Structural)]
pub struct TeamQuery {
    pub zone: u16,
    pub team: u32,
    pub npc: Option<u16>,
}

/// The invitations a bot accepts: all of them when it has no party, none
/// otherwise. They are all answered.
pub fn bot_party_invites(ai: &mut BotAi, in_party: bool) -> (accept: Vec<u64>)
    ensures
        final(ai).messages@.len() == 0,
        final(ai).state == old(ai).state,
        final(ai).time_since_last_idle_check == old(ai).time_since_last_idle_check,
        in_party ==> accept@.len() == 0,
        !in_party ==> accept@ == old(ai).messages@,
{
    let mut accept: Vec<u64> = Vec::new();
    if !in_party {
        accept = ai.messages.clone();
    }
    ai.messages = Vec::new();
    accept
}

/// A bot's idle timer: after `delta`, whether a period has passed; the
/// period is then taken off the timer.
pub fn bot_idle_tick(ai: &mut BotAi, delta: u64, period: u64) -> (ready: bool)
    requires
        old(ai).time_since_last_idle_check + delta <= u64::MAX,
    ensures
        final(ai).state == old(ai).state,
        final(ai).messages@ == old(ai).messages@,
        ({
            let t = old(ai).time_since_last_idle_check + delta;
            &&& ready == (t >= period)
            &&& final(ai).time_since_last_idle_check == (if t >= period { t - period } else { t })
        }),
{
    ai.time_since_last_idle_check = ai.time_since_last_idle_check + delta;
    if ai.time_since_last_idle_check < period {
        return false;
    }
    ai.time_since_last_idle_check = ai.time_since_last_idle_check - period;
    true
}

/// Whether a bot may go for a dropped item: it lies there, belongs to
/// nobody or to the bot, and fits (money always fits).
pub fn bot_can_pickup(item: &ItemDropQuery, bot: u64, has_space: bool) -> (ok: bool)
    ensures
        ok == (match item.drop {
            Some(DroppedItem::Item(_)) => has_space,
            Some(DroppedItem::Money(_)) => true,
            None => false,
        } && (item.owner is None || item.owner == Some(bot))),
{
    let fits = match item.drop {
        Some(DroppedItem::Item(_)) => has_space,
        Some(DroppedItem::Money(_)) => true,
        None => false,
    };
    fits && (item.owner.is_none() || item.owner == Some(bot))
}

/// Whether a bot may attack an entity: one that can be targeted, of a team
/// that is neither the NPCs' default team nor the bot's.
pub fn bot_can_attack(nearby: &TeamQuery, untargetable: bool, bot_team: u32, npc_team: u32) -> (ok: bool)
    ensures
        ok == (!untargetable && nearby.team != npc_team && nearby.team != bot_team),
{
    !untargetable && nearby.team != npc_team && nearby.team != bot_team
}

/// What a bot does when it looks around.
#[derive(Clone, Copy, Debug, PartialEq, Eq, Structural)]
pub enum BotAction {
    Nothing,
    ThrowSnowball(u64),
    MoveToItem(u64),
    FollowOwner,
    Attack(u64),
    PickupItem(u64),
}

/// What a farming bot does when it looks around, given the item and the
/// enemy drawn for it: it goes for item `items[item_pick]` when there is
/// any item it may take (and picks that item up next), else it follows its
/// party owner when too far, else it attacks `enemies[enemy_pick]` when
/// there is an enemy it may attack. Acting restarts its idle timer by one
/// period.
pub fn bot_farm_decide(ai: &mut BotAi, items: &Vec<u64>, owner_too_far: bool, enemies: &Vec<u64>, period: u64,
    item_pick: usize, enemy_pick: usize) -> (action: BotAction)
    requires
        old(ai).time_since_last_idle_check + period <= u64::MAX,
        items@.len() > 0 ==> item_pick < items@.len(),
        enemies@.len() > 0 ==> enemy_pick < enemies@.len(),
    ensures
        final(ai).messages@ == old(ai).messages@,
        items@.len() > 0 ==> action == BotAction::MoveToItem(items@[item_pick as int])
            && final(ai).state == BotAiState::PickupItem(items@[item_pick as int])
            && final(ai).time_since_last_idle_check == old(ai).time_since_last_idle_check + period,
        items@.len() == 0 && owner_too_far ==> action == BotAction::FollowOwner && final(ai).state == old(ai).state
            && final(ai).time_since_last_idle_check == old(ai).time_since_last_idle_check + period,
        items@.len() == 0 && !owner_too_far && enemies@.len() > 0 ==> action == BotAction::Attack(enemies@[enemy_pick as int])
            && final(ai).state == old(ai).state
            && final(ai).time_since_last_idle_check == old(ai).time_since_last_idle_check + period,
        items@.len() == 0 && !owner_too_far && enemies@.len() == 0 ==> action == BotAction::Nothing
            && final(ai).state == old(ai).state
            && final(ai).time_since_last_idle_check == old(ai).time_since_last_idle_check,
{
    if items.len() > 0 {
        let target = items[item_pick];
        ai.state = BotAiState::PickupItem(target);
        ai.time_since_last_idle_check = ai.time_since_last_idle_check + period;
        BotAction::MoveToItem(target)
    } else if owner_too_far {
        ai.time_since_last_idle_check = ai.time_since_last_idle_check + period;
        BotAction::FollowOwner
    } else if enemies.len() > 0 {
        let target = enemies[enemy_pick];
        ai.time_since_last_idle_check = ai.time_since_last_idle_check + period;
        BotAction::Attack(target)
    } else {
        BotAction::Nothing
    }
}

/// A farming bot looks around, as `bot_farm_decide` says, drawing at random
/// the item and the enemy it picks.
pub fn bot_farm(ai: &mut BotAi, items: &Vec<u64>, owner_too_far: bool, enemies: &Vec<u64>, period: u64) -> (action: BotAction)
    requires
        old(ai).time_since_last_idle_check + period <= u64::MAX,
    ensures
        final(ai).messages@ == old(ai).messages@,
        items@.len() > 0 ==> (action matches BotAction::MoveToItem(t) && items@.contains(t)
            && final(ai).state == BotAiState::PickupItem(t)
            && final(ai).time_since_last_idle_check == old(ai).time_since_last_idle_check + period),
        items@.len() == 0 && owner_too_far ==> action == BotAction::FollowOwner && final(ai).state == old(ai).state
            && final(ai).time_since_last_idle_check == old(ai).time_since_last_idle_check + period,
        items@.len() == 0 && !owner_too_far && enemies@.len() > 0 ==> (action matches BotAction::Attack(t)
            && enemies@.contains(t) && final(ai).state == old(ai).state
            && final(ai).time_since_last_idle_check == old(ai).time_since_last_idle_check + period),
        items@.len() == 0 && !owner_too_far && enemies@.len() == 0 ==> action == BotAction::Nothing
            && final(ai).state == old(ai).state
            && final(ai).time_since_last_idle_check == old(ai).time_since_last_idle_check,
{
    let item_pick = if items.len() > 0 { random_index(items.len()) } else { 0 };
    let enemy_pick = if items.len() == 0 && !owner_too_far && enemies.len() > 0 { random_index(enemies.len()) } else { 0 };
    let action = bot_farm_decide(ai, items, owner_too_far, enemies, period, item_pick, enemy_pick);
    proof {
        if items@.len() > 0 {
            assert(items@.contains(items@[item_pick as int]));
        }
        if items@.len() == 0 && !owner_too_far && enemies@.len() > 0 {
            assert(enemies@.contains(enemies@[enemy_pick as int]));
        }
    }
    action
}

/// What a bot in a snowball fight does, given the team mate drawn for it:
/// it throws at `team_mates[pick]` when it holds a snowball and has team
/// mates nearby; throwing speeds the next look around by three quarters of
/// a period.
pub fn bot_snowball_decide(ai: &mut BotAi, has_snowball: bool, team_mates: &Vec<u64>, period: u64, pick: usize) -> (action: BotAction)
    requires
        old(ai).time_since_last_idle_check + (period * 3) / 4 <= u64::MAX,
        period * 3 <= u64::MAX,
        team_mates@.len() > 0 ==> pick < team_mates@.len(),
    ensures
        final(ai).state == old(ai).state,
        final(ai).messages@ == old(ai).messages@,
        has_snowball && team_mates@.len() > 0 ==> action == BotAction::ThrowSnowball(team_mates@[pick as int])
            && final(ai).time_since_last_idle_check == old(ai).time_since_last_idle_check + (period * 3) / 4,
        !(has_snowball && team_mates@.len() > 0) ==> action == BotAction::Nothing
            && final(ai).time_since_last_idle_check == old(ai).time_since_last_idle_check,
{
    if has_snowball && team_mates.len() > 0 {
        let target = team_mates[pick];
        ai.time_since_last_idle_check = ai.time_since_last_idle_check + (period * 3) / 4;
        BotAction::ThrowSnowball(target)
    } else {
        BotAction::Nothing
    }
}

/// A bot in a snowball fight, as `bot_snowball_decide` says, drawing the
/// team mate it throws at at random.
pub fn bot_snowball_fight(ai: &mut BotAi, has_snowball: bool, team_mates: &Vec<u64>, period: u64) -> (action: BotAction)
    requires
        old(ai).time_since_last_idle_check + (period * 3) / 4 <= u64::MAX,
        period * 3 <= u64::MAX,
    ensures
        final(ai).state == old(ai).state,
        final(ai).messages@ == old(ai).messages@,
        has_snowball && team_mates@.len() > 0 ==> (action matches BotAction::ThrowSnowball(t) && team_mates@.contains(t)
            && final(ai).time_since_last_idle_check == old(ai).time_since_last_idle_check + (period * 3) / 4),
        !(has_snowball && team_mates@.len() > 0) ==> action == BotAction::Nothing
            && final(ai).time_since_last_idle_check == old(ai).time_since_last_idle_check,
{
    let pick = if has_snowball && team_mates.len() > 0 { random_index(team_mates.len()) } else { 0 };
    let action = bot_snowball_decide(ai, has_snowball, team_mates, period, pick);
    proof {
        if has_snowball && team_mates@.len() > 0 {
            assert(team_mates@.contains(team_mates@[pick as int]));
        }
    }
    action
}

/// A bot that went for an item picks it up and goes back to farming,
/// restarting its idle timer by one period.
pub fn bot_pickup(ai: &mut BotAi, target: u64, period: u64) -> (action: BotAction)
    requires
        old(ai).time_since_last_idle_check + period <= u64::MAX,
    ensures
        action == BotAction::PickupItem(target),
        final(ai).state == BotAiState::Farm,
        final(ai).time_since_last_idle_check == old(ai).time_since_last_idle_check + period,
        final(ai).messages@ == old(ai).messages@,
{
    ai.state = BotAiState::Farm;
    ai.time_since_last_idle_check = ai.time_since_last_idle_check + period;
    BotAction::PickupItem(target)
}

} // verus!

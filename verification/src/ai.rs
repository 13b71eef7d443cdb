use vstd::prelude::*;
use rand::Rng;
use crate::operators::{aip_compare, compare_aip_value, AipOperatorType, AipResultOperator};
use crate::quest::{
    local_day_minutes, quest_condition_month_day_time, quest_condition_week_day_time, LocalTime,
};
use crate::loot::trunc_div;

verus! {

/// `rand::Rng::gen_range` on `start..end` with the thread's generator: a
/// number drawn from the range. It panics on an empty range, which is
/// therefore ruled out; nothing else is known of the draw.
#[verifier::external_body]
pub(crate) fn random_in_range(start: i32, end: i32) -> (value: i32)
    requires
        start < end,
    ensures
        start <= value < end,
{
    rand::thread_rng().gen_range(start..end)
}

/// The abilities an NPC AI condition can read.
#[derive(Clone, Copy, Debug, PartialEq, Eq, Structural)]
pub enum AipAbilityType {
    Level,
    Attack,
    Defence,
    Resistance,
    HealthPoints,
    Charm,
}

/// An entity's ability values as the AI reads them.
#[derive(Clone, Copy, Debug, PartialEq, Eq, Structural)]
pub struct AiAbilityValues {
    pub level: i32,
    pub attack: i32,
    pub defence: i32,
    pub resistance: i32,
    pub charm: i32,
}

pub open spec fn aip_ability_value(abilities: AiAbilityValues, health_points: u32, ability: AipAbilityType) -> i32 {
    match ability {
        AipAbilityType::Level => abilities.level,
        AipAbilityType::Attack => abilities.attack,
        AipAbilityType::Defence => abilities.defence,
        AipAbilityType::Resistance => abilities.resistance,
        AipAbilityType::HealthPoints => health_points as i32,
        AipAbilityType::Charm => abilities.charm,
    }
}

/// The value of an ability; health points read as an `i32`.
pub fn get_aip_ability_value(abilities: &AiAbilityValues, health_points: u32, ability: AipAbilityType) -> (value: i32)
    ensures
        value == aip_ability_value(*abilities, health_points, ability),
{
    match ability {
        AipAbilityType::Level => abilities.level,
        AipAbilityType::Attack => abilities.attack,
        AipAbilityType::Defence => abilities.defence,
        AipAbilityType::Resistance => abilities.resistance,
        AipAbilityType::HealthPoints => health_points as i32,
        AipAbilityType::Charm => abilities.charm,
    }
}

/// Damage an NPC gave or received.
#[derive(Clone, Copy, Debug, PartialEq, Eq, Structural)]
pub enum AipDamageType {
    Given,
    Received,
}

/// Condition on damage: damage given is never known, so it fails; damage
/// received (zero when none) is compared.
pub fn ai_condition_damage(damage_received: Option<u32>, damage_type: AipDamageType, operator: AipOperatorType, value: i32)
    -> (result: bool)
    ensures
        result == match damage_type {
            AipDamageType::Given => false,
            AipDamageType::Received => aip_compare(operator,
                (match damage_received { Some(d) => d as i32, None => 0i32 }) as int, value as int),
        },
{
    match damage_type {
        AipDamageType::Given => false,
        AipDamageType::Received => {
            let amount: i32 = match damage_received {
                Some(d) => d as i32,
                None => 0,
            };
            compare_aip_value(operator, amount, value)
        },
    }
}

/// Integer division rounding toward zero, as Rust divides, for a divisor
/// of either sign.
pub open spec fn rust_div(a: int, b: int) -> int {
    if b > 0 { trunc_div(a, b) } else { -trunc_div(a, -b) }
}

/// Condition on health: the percentage left, `100 * current / max`
/// rounded toward zero, is compared.
pub fn ai_condition_health_percent(health_points: u32, max_health: i32, operator: AipOperatorType, value: i32) -> (result: bool)
    requires
        max_health != 0,
        i32::MIN <= 100 * (health_points as i32) <= i32::MAX,
        !(100 * (health_points as i32) == i32::MIN && max_health == -1),
    ensures
        result == aip_compare(operator, rust_div(100 * (health_points as i32), max_health as int), value as int),
{
    let current = health_points as i32;
    let scaled: i64 = (100 * current) as i64;
    let max: i64 = max_health as i64;
    let magnitude: i64 = if scaled >= 0 { scaled } else { -scaled };
    let divisor: i64 = if max > 0 { max } else { -max };
    let q: i64 = magnitude / divisor;
    assert(q <= magnitude) by (nonlinear_arith)
        requires magnitude >= 0, divisor > 0, q == magnitude / divisor;
    let signed: i64 = if (scaled >= 0) == (max > 0) { q } else { -q };
    assert(signed == rust_div(scaled as int, max as int));
    let percent: i32 = if signed > i32::MAX as i64 { i32::MAX } else if signed < i32::MIN as i64 { i32::MIN } else { signed as i32 };
    assert(divisor > 1 && magnitude > 0 ==> q < magnitude) by (nonlinear_arith)
        requires magnitude >= 0, divisor > 0, q == magnitude / divisor;
    assert(i32::MIN <= signed <= i32::MAX);
    compare_aip_value(operator, percent, value)
}

/// Condition "has no owner": no owner is found, or it is in another zone.
pub fn ai_condition_has_no_owner(owner_zone: Option<u16>, zone: u16) -> (result: bool)
    ensures
        result == match owner_zone { Some(z) => z != zone, None => true },
{
    match owner_zone {
        Some(z) => z != zone,
        None => true,
    }
}

/// Condition "the attacker is the current target".
pub fn ai_condition_is_attacker_current_target(attacker: Option<u64>, target: Option<u64>) -> (result: bool)
    ensures
        result == (attacker is Some && target is Some && attacker == target),
{
    match (attacker, target) {
        (Some(a), Some(t)) => a == t,
        _ => false,
    }
}

/// Condition "no target, and the attacker's ability compares": fails when
/// there is a target or no attacker.
pub fn ai_condition_no_target_and_compare_attacker_ability_value(
    has_target: bool,
    attacker: Option<(AiAbilityValues, u32)>,
    operator: AipOperatorType,
    ability: AipAbilityType,
    value: i32,
) -> (result: bool)
    ensures
        result == (!has_target && match attacker {
            Some((a, hp)) => aip_compare(operator, aip_ability_value(a, hp, ability) as int, value as int),
            None => false,
        }),
{
    if has_target {
        return false;
    }
    match attacker {
        Some((a, hp)) => compare_aip_value(operator, get_aip_ability_value(&a, hp, ability), value),
        None => false,
    }
}

/// Condition "random": a number drawn from `start..end` is compared. What
/// holds of every draw: some number of the range compares as the result
/// says.
pub fn ai_condition_random(operator: AipOperatorType, start: i32, end: i32, value: i32) -> (result: bool)
    requires
        start < end,
    ensures
        exists|r: int| start <= r < end && result == aip_compare(operator, r, value as int),
{
    let r = random_in_range(start, end);
    compare_aip_value(operator, r, value)
}

/// Condition on one of the NPC's own abilities.
pub fn ai_condition_source_ability_value(abilities: &AiAbilityValues, health_points: u32, operator: AipOperatorType,
    ability: AipAbilityType, value: i32) -> (result: bool)
    ensures
        result == aip_compare(operator, aip_ability_value(*abilities, health_points, ability) as int, value as int),
{
    compare_aip_value(operator, get_aip_ability_value(abilities, health_points, ability), value)
}

/// Condition on one of the target's abilities; fails without a target.
pub fn ai_condition_target_ability_value(target: Option<(AiAbilityValues, u32)>, operator: AipOperatorType,
    ability: AipAbilityType, value: i32) -> (result: bool)
    ensures
        result == match target {
            Some((a, hp)) => aip_compare(operator, aip_ability_value(a, hp, ability) as int, value as int),
            None => false,
        },
{
    match target {
        Some((a, hp)) => compare_aip_value(operator, get_aip_ability_value(&a, hp, ability), value),
        None => false,
    }
}

/// Condition "month day and time", as for quests.
pub fn ai_condition_month_day_time(local_time: LocalTime, month_day: Option<u8>, start: i32, end: i32) -> (result: bool)
    requires
        local_time.hour < 24,
        local_time.minute < 60,
    ensures
        result == ((month_day matches Some(d) ==> d as u32 == local_time.day)
            && start <= local_day_minutes(local_time) <= end),
{
    quest_condition_month_day_time(local_time, month_day, start, end)
}

/// Condition "week day and time", as for quests.
pub fn ai_condition_week_day_time(local_time: LocalTime, week_day: u8, start: i32, end: i32) -> (result: bool)
    requires
        local_time.hour < 24,
        local_time.minute < 60,
    ensures
        result == (week_day as u32 == local_time.weekday_from_sunday
            && start <= local_day_minutes(local_time) <= end),
{
    quest_condition_week_day_time(local_time, week_day, start, end)
}

/// The time of day in a zone: the world time wrapped by the zone's day
/// cycle, or the world time where the zone is unknown.
pub open spec fn zone_time(world_time: u32, day_cycle: Option<u32>) -> u32 {
    match day_cycle {
        Some(c) => (world_time % c) as u32,
        None => world_time,
    }
}

/// Condition "zone time": the zone's time of day lies in `start..=end`.
pub fn ai_condition_zone_time(world_time: u32, day_cycle: Option<u32>, start: u32, end: u32) -> (result: bool)
    requires
        day_cycle != Some(0u32),
    ensures
        result == (start <= zone_time(world_time, day_cycle) <= end),
{
    let t = match day_cycle {
        Some(c) => world_time % c,
        None => world_time,
    };
    start <= t && t <= end
}

/// The times of day of a zone.
#[derive(Clone, Copy, Debug, PartialEq, Eq, Structural)]
pub struct ZoneDayTimes {
    pub day_cycle: u32,
    pub day_time: u32,
    pub evening_time: u32,
    pub night_time: u32,
}

/// Whether it is day in a zone: its time of day lies between half its
/// morning time and half the sum of its evening and night times.
pub open spec fn is_daytime(times: ZoneDayTimes, world_time: u32) -> bool {
    let t = world_time % times.day_cycle;
    times.day_time / 2 <= t <= (times.evening_time + times.night_time) / 2
}

/// Condition "is it day (or night) in the zone"; in an unknown zone it is
/// taken as day.
pub fn ai_condition_is_zone_daytime(world_time: u32, zone: Option<ZoneDayTimes>, daytime: bool) -> (result: bool)
    requires
        zone matches Some(z) ==> z.day_cycle != 0 && z.evening_time + z.night_time <= u32::MAX,
    ensures
        result == match zone {
            Some(z) => daytime == is_daytime(z, world_time),
            None => daytime,
        },
{
    match zone {
        Some(z) => {
            let t = world_time % z.day_cycle;
            let day_start = z.day_time / 2;
            let day_end = (z.evening_time + z.night_time) / 2;
            daytime == (day_start <= t && t <= day_end)
        },
        None => daytime,
    }
}

/// Condition "server channel": this server is channel one.
pub fn ai_condition_server_channel_number(start: u16, end: u16) -> (result: bool)
    ensures
        result == (start <= 1 <= end),
{
    start <= 1 && 1 <= end
}

/// The variables the AI can read and change.
#[derive(Clone, Copy, Debug, PartialEq, Eq, Structural)]
pub enum AipVariableType {
    LocalNpcObject,
    Ai,
    World,
    Economy,
}

/// The value of an object variable: zero when the object or the variable
/// is missing, and for the world and economy variables, which are not
/// kept.
pub open spec fn variable_value(variable_type: AipVariableType, variables: Option<Seq<i32>>, id: usize) -> i32 {
    match variable_type {
        AipVariableType::LocalNpcObject | AipVariableType::Ai => match variables {
            Some(v) => if id < v.len() { v[id as int] } else { 0 },
            None => 0,
        },
        _ => 0,
    }
}

/// Condition on a variable.
pub fn ai_condition_variable(variable_type: AipVariableType, variables: Option<&Vec<i32>>, id: usize,
    operator: AipOperatorType, value: i32) -> (result: bool)
    ensures
        result == aip_compare(operator, variable_value(variable_type, match variables {
            Some(v) => Some(v@), None => None::<Seq<i32>> }, id) as int, value as int),
{
    let current: i32 = match variable_type {
        AipVariableType::LocalNpcObject | AipVariableType::Ai => match variables {
            Some(v) => if id < v.len() { v[id] } else { 0 },
            None => 0,
        },
        _ => 0,
    };
    compare_aip_value(operator, current, value)
}

/// The largest value an "add" puts in a variable of a local NPC.
pub const LOCAL_NPC_VARIABLE_MAX: i32 = 500;

/// A variable after a "set variable" action. The variables of a local NPC
/// are kept within `0..=500` by additions and subtractions; those of the
/// AI itself are not.
pub open spec fn set_variable_result(variable_type: AipVariableType, current: i32, operator: AipResultOperator, value: i32) -> int {
    match operator {
        AipResultOperator::Assign => value as int,
        AipResultOperator::Add => if variable_type == AipVariableType::LocalNpcObject {
            if current + value < LOCAL_NPC_VARIABLE_MAX { current + value } else { LOCAL_NPC_VARIABLE_MAX as int }
        } else {
            current + value
        },
        AipResultOperator::Subtract => if variable_type == AipVariableType::LocalNpcObject {
            if current - value > 0 { current - value } else { 0 }
        } else {
            current - value
        },
    }
}

/// The "set variable" action on an object's variables; the world and
/// economy variables are not kept, and a missing variable is left alone.
pub fn ai_action_set_variable(variables: &mut Vec<i32>, variable_type: AipVariableType, id: usize,
    operator: AipResultOperator, value: i32)
    requires
        id < old(variables)@.len() && (variable_type == AipVariableType::LocalNpcObject || variable_type == AipVariableType::Ai)
            ==> i32::MIN <= set_variable_result(AipVariableType::Ai, old(variables)@[id as int], operator, value) <= i32::MAX,
    ensures
        if id < old(variables)@.len() && (variable_type == AipVariableType::LocalNpcObject || variable_type == AipVariableType::Ai) {
            final(variables)@ == old(variables)@.update(id as int,
                set_variable_result(variable_type, old(variables)@[id as int], operator, value) as i32)
        } else {
            final(variables)@ == old(variables)@
        },
{
    match variable_type {
        AipVariableType::LocalNpcObject | AipVariableType::Ai => {
            if id < variables.len() {
                let current = variables[id];
                let local = variable_type == AipVariableType::LocalNpcObject;
                let updated = match operator {
                    AipResultOperator::Assign => value,
                    AipResultOperator::Add => {
                        let sum = current + value;
                        if local && sum >= LOCAL_NPC_VARIABLE_MAX { LOCAL_NPC_VARIABLE_MAX } else { sum }
                    },
                    AipResultOperator::Subtract => {
                        let difference = current - value;
                        if local && difference <= 0 { 0 } else { difference }
                    },
                };
                variables.set(id, updated);
            }
        },
        _ => {},
    }
}

/// Whether the NPC should attack its owner's target: the target belongs to
/// a team that is neither the NPCs' default team nor the NPC's own.
pub fn ai_action_attack_owner_target(owner_target_team: Option<u32>, team: u32, npc_team: u32) -> (attack: bool)
    ensures
        attack == match owner_target_team { Some(t) => t != npc_team && t != team, None => false },
{
    match owner_target_team {
        Some(t) => t != npc_team && t != team,
        None => false,
    }
}

/// A nearby entity the AI may pick from, with the stat it is judged by.
#[derive(Clone, Copy, Debug, PartialEq, Eq, Structural)]
pub struct AiCandidate {
    pub entity: u64,
    pub team: u32,
    pub value: i32,
}

/// Attack the lowest or the highest.
#[derive(Clone, Copy, Debug, PartialEq, Eq, Structural)]
pub enum AipAttackNearbyStat {
    Lowest,
    Highest,
}

pub open spec fn eligible(c: AiCandidate, team: u32, npc_team: u32) -> bool {
    c.team != npc_team && c.team != team
}

/// `k` is the first eligible candidate with the lowest (or highest) value.
pub open spec fn best_candidate(cs: Seq<AiCandidate>, team: u32, npc_team: u32, stat: AipAttackNearbyStat, k: int) -> bool {
    &&& 0 <= k < cs.len()
    &&& eligible(cs[k], team, npc_team)
    &&& forall|j: int| 0 <= j < cs.len() && eligible(#[trigger] cs[j], team, npc_team) ==> match stat {
        AipAttackNearbyStat::Lowest => cs[k].value <= cs[j].value && (j < k ==> cs[k].value < cs[j].value),
        AipAttackNearbyStat::Highest => cs[k].value >= cs[j].value && (j < k ==> cs[k].value > cs[j].value),
    }
}

/// The entity to attack among nearby candidates: the first eligible one
/// with the lowest (or highest) stat; `None` when none is eligible.
pub fn ai_action_attack_nearby_entity_by_stat(candidates: &Vec<AiCandidate>, team: u32, npc_team: u32,
    stat: AipAttackNearbyStat) -> (target: Option<u64>)
    ensures
        match target {
            Some(e) => exists|k: int| best_candidate(candidates@, team, npc_team, stat, k) && candidates@[k].entity == e,
            None => forall|j: int| 0 <= j < candidates@.len() ==> !eligible(#[trigger] candidates@[j], team, npc_team),
        },
{
    let mut best: Option<usize> = None;
    let mut i: usize = 0;
    while i < candidates.len()
        invariant
            i <= candidates.len(),
            match best {
                Some(b) => best_candidate(candidates@.take(i as int), team, npc_team, stat, b as int),
                None => forall|j: int| 0 <= j < i ==> !eligible(#[trigger] candidates@[j], team, npc_team),
            },
        decreases candidates.len() - i,
    {
        let c = candidates[i];
        let ghost before = candidates@.take(i as int);
        let ghost after = candidates@.take(i as int + 1);
        assert forall|j: int| 0 <= j < i implies #[trigger] after[j] == before[j] by {}
        if c.team != npc_team && c.team != team {
            match best {
                None => {
                    best = Some(i);
                },
                Some(b) => {
                    let better = match stat {
                        AipAttackNearbyStat::Lowest => c.value < candidates[b].value,
                        AipAttackNearbyStat::Highest => c.value > candidates[b].value,
                    };
                    if better {
                        best = Some(i);
                    }
                },
            }
        }
        proof {
            match best {
                Some(b) => {
                    assert forall|j: int| 0 <= j < after.len() && eligible(#[trigger] after[j], team, npc_team) implies match stat {
                        AipAttackNearbyStat::Lowest => after[b as int].value <= after[j].value && (j < b ==> after[b as int].value < after[j].value),
                        AipAttackNearbyStat::Highest => after[b as int].value >= after[j].value && (j < b ==> after[b as int].value > after[j].value),
                    } by {
                        if j < i {
                            assert(after[j] == before[j]);
                        }
                    }
                },
                None => {},
            }
        }
        i += 1;
    }
    assert(candidates@.take(i as int) =~= candidates@);
    match best {
        Some(b) => Some(candidates[b].entity),
        None => None,
    }
}

/// Which nearby allies join an attack.
#[derive(Clone, Copy, Debug, PartialEq, Eq, Structural)]
pub enum AipNearbyAlly {
    Ally,
    WithNpcId(u16),
    WithSameNpcId,
}

/// A nearby entity an NPC may call to attack: `found` is false for an
/// entity whose team and target could not be read.
#[derive(Clone, Copy, Debug, PartialEq, Eq, Structural)]
pub struct AllyCandidate {
    pub entity: u64,
    pub found: bool,
    pub team: u32,
    pub has_target: bool,
    pub npc_id: Option<u16>,
}

pub open spec fn joins_attack(c: AllyCandidate, team: u32, npc_id: u16, ally: AipNearbyAlly) -> bool {
    &&& c.found
    &&& !c.has_target
    &&& c.team == team
    &&& c.npc_id is Some
    &&& match ally {
        AipNearbyAlly::Ally => true,
        AipNearbyAlly::WithNpcId(id) => c.npc_id == Some(id),
        AipNearbyAlly::WithSameNpcId => c.npc_id == Some(npc_id),
    }
}

/// The allies called from candidate `i` on, `count` called so far: each
/// candidate other than the caller that joins is called, and after each
/// candidate that is not skipped the count is checked against the limit.
pub open spec fn allies_called(cs: Seq<AllyCandidate>, i: int, count: int, me: u64, team: u32, npc_id: u16,
    ally: AipNearbyAlly, limit: Option<usize>) -> Seq<u64>
    decreases cs.len() - i,
{
    if i < 0 || i >= cs.len() {
        Seq::empty()
    } else {
        let c = cs[i];
        if c.entity == me || (c.found && !joins_attack(c, team, npc_id, ally)) {
            allies_called(cs, i + 1, count, me, team, npc_id, ally, limit)
        } else {
            let called = if c.found { seq![c.entity] } else { Seq::empty() };
            let n = count + called.len();
            if limit == Some(n as usize) && 0 <= n {
                called
            } else {
                called + allies_called(cs, i + 1, n, me, team, npc_id, ally, limit)
            }
        }
    }
}

/// The nearby allies an NPC calls to attack its target, in the order they
/// are found; nobody is called when the NPC has no target.
pub fn ai_action_nearby_allies_attack_target(candidates: &Vec<AllyCandidate>, me: u64, has_target: bool, team: u32,
    npc_id: u16, ally: AipNearbyAlly, limit: Option<usize>) -> (called: Vec<u64>)
    ensures
        !has_target ==> called@.len() == 0,
        has_target ==> called@ == allies_called(candidates@, 0, 0, me, team, npc_id, ally, limit),
{
    let mut called: Vec<u64> = Vec::new();
    if !has_target {
        return called;
    }
    let ghost cs = candidates@;
    let mut count: usize = 0;
    let mut i: usize = 0;
    while i < candidates.len()
        invariant_except_break
            i <= candidates.len(),
            cs == candidates@,
            count == called@.len(),
            count <= i,
            allies_called(cs, 0, 0, me, team, npc_id, ally, limit)
                == called@ + allies_called(cs, i as int, count as int, me, team, npc_id, ally, limit),
        ensures
            allies_called(cs, 0, 0, me, team, npc_id, ally, limit) == called@,
        decreases candidates.len() - i,
    {
        let c = candidates[i];
        let skipped = c.entity == me || (c.found && !(!c.has_target && c.team == team && match c.npc_id {
            Some(id) => match ally {
                AipNearbyAlly::Ally => true,
                AipNearbyAlly::WithNpcId(wanted) => id == wanted,
                AipNearbyAlly::WithSameNpcId => id == npc_id,
            },
            None => false,
        }));
        assert(skipped == (c.entity == me || (c.found && !joins_attack(c, team, npc_id, ally))));
        if !skipped {
            let ghost before = called@;
            if c.found {
                called.push(c.entity);
                count += 1;
            }
            assert(called@ =~= before + (if c.found { seq![c.entity] } else { Seq::<u64>::empty() }));
            if limit == Some(count) {
                assert(allies_called(cs, i as int, (count - called@.len() + before.len()) as int, me, team, npc_id, ally, limit)
                    == (if c.found { seq![c.entity] } else { Seq::<u64>::empty() }));
                assert(allies_called(cs, 0, 0, me, team, npc_id, ally, limit) =~= called@);
                break;
            }
            assert(allies_called(cs, 0, 0, me, team, npc_id, ally, limit)
                =~= called@ + allies_called(cs, i as int + 1, count as int, me, team, npc_id, ally, limit));
        }
        i += 1;
    }
    called
}

/// The damage an NPC deals itself to die: one more than its health.
pub fn ai_action_kill_self_damage(health_points: u32) -> (amount: u32)
    requires
        health_points < u32::MAX,
    ensures
        amount == health_points + 1,
{
    health_points + 1
}

/// An NPC whose ability values are worked out again: which NPC it is, and
/// the levels of its summoner and of the summoning skill, if summoned.
#[derive(Clone, Copy, Debug, PartialEq, Eq, Structural)]
pub struct AbilityValuesNpcQuery {
    pub npc_id: u16,
    pub summon_owner_level: Option<i32>,
    pub summon_skill_level: Option<i32>,
}

/// Condition comparing the attacker's ability to the target's; fails
/// unless both are known.
pub fn ai_condition_attacker_and_target_ability_value(attacker: Option<(AiAbilityValues, u32)>,
    target: Option<(AiAbilityValues, u32)>, operator: AipOperatorType, ability: AipAbilityType) -> (result: bool)
    ensures
        result == match (attacker, target) {
            (Some((a, ahp)), Some((t, thp))) =>
                aip_compare(operator, aip_ability_value(a, ahp, ability) as int, aip_ability_value(t, thp, ability) as int),
            _ => false,
        },
{
    match (attacker, target) {
        (Some((a, ahp)), Some((t, thp))) =>
            compare_aip_value(operator, get_aip_ability_value(&a, ahp, ability), get_aip_ability_value(&t, thp, ability)),
        _ => false,
    }
}

/// Condition "owner has a target": the owner is known and is targeting
/// something. `owner_target` is the owner's target, when the owner is known.
pub fn ai_condition_owner_has_target(owner_target: Option<Option<u64>>) -> (result: bool)
    ensures
        result == (owner_target matches Some(Some(_))),
{
    match owner_target {
        Some(target) => target.is_some(),
        None => false,
    }
}

/// Which entity a status effect condition looks at.
#[derive(Clone, Copy, Debug, PartialEq, Eq, Structural)]
pub enum AipHaveStatusTarget {
    This,
    Target,
}

/// Which status effects a status effect condition counts.
#[derive(Clone, Copy, Debug, PartialEq, Eq, Structural)]
pub enum AipHaveStatusType {
    Any,
    Good,
    Bad,
}

/// One kind of status effect on an entity: whether one is active, and
/// whether the kind counts as good or as bad.
#[derive(Clone, Copy, Debug, PartialEq, Eq, Structural)]
pub struct StatusEffectSlot {
    pub active: bool,
    pub is_good: bool,
    pub is_bad: bool,
}

pub open spec fn counts_as(slot: StatusEffectSlot, category: AipHaveStatusType) -> bool {
    slot.active && match category {
        AipHaveStatusType::Any => true,
        AipHaveStatusType::Good => slot.is_good,
        AipHaveStatusType::Bad => slot.is_bad,
    }
}

/// Some status effect among `slots` is active and of the category.
pub open spec fn has_effect(slots: Seq<StatusEffectSlot>, category: AipHaveStatusType) -> bool {
    exists|i: int| 0 <= i < slots.len() && counts_as(#[trigger] slots[i], category)
}

/// Condition "has status effect": whether the entity has an active effect
/// of the category must be `have`. `effects` are the status effects of the
/// NPC itself, or of its target; fails when the target is unknown.
pub fn ai_condition_has_status_effect(effects: Option<&Vec<StatusEffectSlot>>, category: AipHaveStatusType, have: bool)
    -> (result: bool)
    ensures
        result == match effects {
            Some(slots) => have == has_effect((*slots)@, category),
            None => false,
        },
{
    match effects {
        Some(slots) => {
            let mut has_any = false;
            let mut has_good = false;
            let mut has_bad = false;
            let mut i: usize = 0;
            while i < slots.len()
                invariant
                    i <= slots.len(),
                    has_any == exists|j: int| 0 <= j < i && counts_as(#[trigger] slots@[j], AipHaveStatusType::Any),
                    has_good == exists|j: int| 0 <= j < i && counts_as(#[trigger] slots@[j], AipHaveStatusType::Good),
                    has_bad == exists|j: int| 0 <= j < i && counts_as(#[trigger] slots@[j], AipHaveStatusType::Bad),
                decreases slots.len() - i,
            {
                let slot = slots[i];
                if slot.active {
                    has_any = true;
                    if slot.is_good {
                        has_good = true;
                    }
                    if slot.is_bad {
                        has_bad = true;
                    }
                }
                proof {
                    assert(counts_as(slots@[i as int], AipHaveStatusType::Any) == slot.active);
                    assert(counts_as(slots@[i as int], AipHaveStatusType::Good) == (slot.active && slot.is_good));
                    assert(counts_as(slots@[i as int], AipHaveStatusType::Bad) == (slot.active && slot.is_bad));
                }
                i += 1;
            }
            match category {
                AipHaveStatusType::Any => have == has_any,
                AipHaveStatusType::Good => have == has_good,
                AipHaveStatusType::Bad => have == has_bad,
            }
        },
        None => false,
    }
}

/// An entity within the search distance of a "count nearby entities"
/// condition, in the order the zone lists them: its level and team, and a
/// rank of its distance to the NPC (a smaller rank is nearer).
#[derive(Clone, Copy, Debug, PartialEq, Eq, Structural)]
pub struct NearbyEntity {
    pub entity: u64,
    pub level: i32,
    pub team: u32,
    pub distance_rank: u64,
}

/// The NPC that searches and what it looks for.
#[derive(Clone, Copy, Debug, PartialEq, Eq, Structural)]
pub struct NearbySearch {
    pub source: u64,
    pub source_level: i32,
    pub source_team: u32,
    pub is_allied: bool,
    /// The NPC's level minus the entity's must lie in `level_diff_min..=level_diff_max`.
    pub level_diff_min: i32,
    pub level_diff_max: i32,
    /// Compare the number found with `count`; without an operator, stop at
    /// the `count`-th entity found.
    pub count_operator: Option<AipOperatorType>,
    pub count: i32,
}

/// An entity the search counts: not the NPC itself, on its team exactly
/// when allies are sought, and within the level range.
pub open spec fn is_counted(e: NearbyEntity, search: NearbySearch) -> bool {
    &&& e.entity != search.source
    &&& search.is_allied == (e.team == search.source_team)
    &&& search.level_diff_min <= search.source_level - e.level <= search.level_diff_max
}

/// Where a search stands after looking at entities: the nearest entity so
/// far (starting from the one remembered before) and its rank, the number
/// counted, and the entity at which it stopped.
pub struct SearchState {
    pub near: Option<u64>,
    pub near_rank: Option<u64>,
    pub found_count: int,
    pub found: Option<u64>,
}

pub open spec fn search_scan(es: Seq<NearbyEntity>, search: NearbySearch, near: Option<u64>, n: nat) -> SearchState
    decreases n,
{
    if n == 0 {
        SearchState { near, near_rank: None, found_count: 0, found: None }
    } else {
        let st = search_scan(es, search, near, (n - 1) as nat);
        let e = es[n - 1];
        if st.found is Some || !is_counted(e, search) {
            st
        } else {
            let nearer = match st.near_rank { Some(r) => e.distance_rank < r, None => true };
            let count = st.found_count + 1;
            SearchState {
                near: if nearer { Some(e.entity) } else { st.near },
                near_rank: if nearer { Some(e.distance_rank) } else { st.near_rank },
                found_count: count,
                found: if search.count_operator is None && count >= search.count { Some(e.entity) } else { None },
            }
        }
    }
}

/// The entity a search finds: with an operator, the nearest entity when the
/// number counted compares to `count`; without one, the entity it stopped at.
pub open spec fn search_result(st: SearchState, search: NearbySearch) -> Option<u64> {
    match search.count_operator {
        Some(op) => if aip_compare(op, st.found_count, search.count as int) { st.near } else { None },
        None => st.found,
    }
}

/// Condition "count nearby entities": looks through the entities within
/// the distance, remembering the nearest in `near_char`, and returns the
/// entity found; the condition holds when one was found.
pub fn ai_condition_count_nearby_entities(entities: &Vec<NearbyEntity>, search: NearbySearch, near_char: &mut Option<u64>)
    -> (find_char: Option<u64>)
    requires
        entities@.len() < i32::MAX,
    ensures
        ({
            let st = search_scan(entities@, search, *old(near_char), entities@.len());
            &&& *final(near_char) == st.near
            &&& find_char == search_result(st, search)
        }),
{
    let ghost near0 = *near_char;
    let mut near_rank: Option<u64> = None;
    let mut find_count: i32 = 0;
    let mut found: Option<u64> = None;
    let mut i: usize = 0;
    while i < entities.len() && found.is_none()
        invariant
            i <= entities.len(),
            entities@.len() < i32::MAX,
            ({
                let st = search_scan(entities@, search, near0, i as nat);
                &&& *near_char == st.near
                &&& near_rank == st.near_rank
                &&& find_count == st.found_count
                &&& found == st.found
            }),
            0 <= find_count <= i,
        decreases entities.len() - i,
    {
        let e = entities[i];
        let level_diff: i64 = search.source_level as i64 - e.level as i64;
        let counted = e.entity != search.source
            && search.is_allied == (e.team == search.source_team)
            && search.level_diff_min as i64 <= level_diff && level_diff <= search.level_diff_max as i64;
        if counted {
            let nearer = match near_rank {
                Some(r) => e.distance_rank < r,
                None => true,
            };
            if nearer {
                *near_char = Some(e.entity);
                near_rank = Some(e.distance_rank);
            }
            find_count = find_count + 1;
            if search.count_operator.is_none() && find_count >= search.count {
                found = Some(e.entity);
            }
        }
        i += 1;
    }
    proof {
        if found is Some {
            lemma_search_stops(entities@, search, near0, i as nat, entities@.len());
        }
    }
    match search.count_operator {
        Some(op) => if compare_aip_value(op, find_count, search.count) { *near_char } else { None },
        None => found,
    }
}

proof fn lemma_search_stops(es: Seq<NearbyEntity>, search: NearbySearch, near: Option<u64>, i: nat, n: nat)
    requires
        i <= n,
        search_scan(es, search, near, i).found is Some,
    ensures
        search_scan(es, search, near, n) == search_scan(es, search, near, i),
    decreases n - i,
{
    if i < n {
        lemma_search_stops(es, search, near, i, (n - 1) as nat);
    }
}

/// Whom a "use skill" action casts on.
#[derive(Clone, Copy, Debug, PartialEq, Eq, Structural)]
pub enum AipSkillTarget {
    FindChar,
    Target,
    This,
    NearChar,
}

/// The command a "use skill" action gives the NPC.
#[derive(Clone, Copy, Debug, PartialEq, Eq, Structural)]
pub enum NpcSkillCommand {
    CastOnTarget { skill_id: u16, target: u64, cast_motion: u16, action_motion: u16 },
    CastOnSelf { skill_id: u16, cast_motion: u16, action_motion: u16 },
}

/// The entity a skill target names, when known.
pub open spec fn skill_target_entity(skill_target: AipSkillTarget, source: u64, find_char: Option<u64>,
    target: Option<u64>, near_char: Option<u64>) -> Option<u64> {
    match skill_target {
        AipSkillTarget::FindChar => find_char,
        AipSkillTarget::Target => target,
        AipSkillTarget::This => Some(source),
        AipSkillTarget::NearChar => near_char,
    }
}

/// The command of a "use skill" action: casts skill `skill_id` (cut to 16 bits; zero names
/// no skill) on the chosen entity, with `motion_id` (cut to 16 bits) as the
/// casting motion and the next motion as the action motion. Casting on the
/// NPC itself is a self cast. No command when the skill or the entity is
/// missing.
pub open spec fn skill_command(source: u64, find_char: Option<u64>, target: Option<u64>, near_char: Option<u64>,
    skill_target: AipSkillTarget, skill_id: i32, motion_id: i32) -> Option<NpcSkillCommand> {
    match skill_target_entity(skill_target, source, find_char, target, near_char) {
        Some(e) => if skill_id as u16 == 0 {
            None
        } else if e != source {
            Some(NpcSkillCommand::CastOnTarget { skill_id: skill_id as u16, target: e,
                cast_motion: motion_id as u16, action_motion: (motion_id as u16 + 1) as u16 })
        } else {
            Some(NpcSkillCommand::CastOnSelf { skill_id: skill_id as u16,
                cast_motion: motion_id as u16, action_motion: (motion_id as u16 + 1) as u16 })
        },
        None => None,
    }
}

/// Action "use skill": the command `skill_command` describes.
pub fn ai_action_use_skill(source: u64, find_char: Option<u64>, target: Option<u64>, near_char: Option<u64>,
    skill_target: AipSkillTarget, skill_id: i32, motion_id: i32) -> (command: Option<NpcSkillCommand>)
    requires
        (motion_id as u16) < u16::MAX,
    ensures
        command == skill_command(source, find_char, target, near_char, skill_target, skill_id, motion_id),
{
    let entity = match skill_target {
        AipSkillTarget::FindChar => find_char,
        AipSkillTarget::Target => target,
        AipSkillTarget::This => Some(source),
        AipSkillTarget::NearChar => near_char,
    };
    let skill: u16 = skill_id as u16;
    let cast_motion: u16 = motion_id as u16;
    let action_motion: u16 = cast_motion + 1;
    match entity {
        Some(e) => if skill == 0 {
            None
        } else if e != source {
            Some(NpcSkillCommand::CastOnTarget { skill_id: skill, target: e, cast_motion, action_motion })
        } else {
            Some(NpcSkillCommand::CastOnSelf { skill_id: skill, cast_motion, action_motion })
        },
        None => None,
    }
}

/// What a "set monster spawn state" action does to a zone's spawns.
#[derive(Clone, Copy, Debug, PartialEq, Eq, Structural)]
pub enum AipMonsterSpawnState {
    Disabled,
    Enabled,
    Toggle,
}

/// The zone a "set monster spawn state" action changes: the one it names
/// (cut to 16 bits; zero names none), else the NPC's own.
pub fn monster_spawn_state_zone(zone_id: Option<i32>, source_zone: u16) -> (zone: u16)
    ensures
        zone == match zone_id {
            Some(z) => if z as u16 != 0 { z as u16 } else { source_zone },
            None => source_zone,
        },
{
    match zone_id {
        Some(z) => {
            let z16: u16 = z as u16;
            if z16 != 0 { z16 } else { source_zone }
        },
        None => source_zone,
    }
}

/// Whether spawns are enabled after a "set monster spawn state" action, from
/// whether they were before.
pub fn monster_spawns_enabled(state: AipMonsterSpawnState, enabled_before: bool) -> (enabled: bool)
    ensures
        enabled == match state {
            AipMonsterSpawnState::Disabled => false,
            AipMonsterSpawnState::Enabled => true,
            AipMonsterSpawnState::Toggle => !enabled_before,
        },
{
    match state {
        AipMonsterSpawnState::Disabled => false,
        AipMonsterSpawnState::Enabled => true,
        AipMonsterSpawnState::Toggle => !enabled_before,
    }
}

} // verus!

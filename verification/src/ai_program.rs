use vstd::prelude::*;
use crate::operators::{aip_compare, compare_aip_value, AipOperatorType};
use crate::quest::{local_day_minutes, LocalTime};
use crate::ai::{
    aip_ability_value, has_effect, is_daytime, random_in_range, rust_div, search_result, search_scan, variable_value,
    zone_time, AiAbilityValues, AipAbilityType, AipDamageType, AipHaveStatusTarget, AipHaveStatusType, AipVariableType,
    NearbyEntity, NearbySearch, StatusEffectSlot, ZoneDayTimes,
    ai_condition_attacker_and_target_ability_value, ai_condition_count_nearby_entities, ai_condition_damage,
    ai_condition_has_no_owner, ai_condition_has_status_effect, ai_condition_health_percent,
    ai_condition_is_attacker_current_target, ai_condition_is_zone_daytime, ai_condition_month_day_time,
    ai_condition_no_target_and_compare_attacker_ability_value, ai_condition_owner_has_target,
    ai_condition_server_channel_number, ai_condition_source_ability_value, ai_condition_target_ability_value,
    ai_condition_variable, ai_condition_week_day_time, ai_condition_zone_time,
};

verus! {

/// Where a distance condition measures from.
#[derive(Clone, Copy, Debug, PartialEq, Eq, Structural)]
pub enum AipDistanceOrigin {
    Spawn,
    Owner,
    Target,
}

/// The conditions of an NPC AI event; `Other` stands for every condition
/// this server does not evaluate, which always fails.
#[derive(Clone, Copy, Debug, PartialEq, Eq, Structural)]
pub enum AipCondition {
    FindNearbyEntities {
        distance: i32,
        is_allied: bool,
        level_diff_min: i32,
        level_diff_max: i32,
        count_operator: Option<AipOperatorType>,
        count: i32,
    },
    Damage(AipDamageType, AipOperatorType, i32),
    Distance(AipDistanceOrigin, AipOperatorType, i32),
    HasNoOwner,
    HealthPercent(AipOperatorType, i32),
    IsAttackerCurrentTarget,
    NoTargetAndCompareAttackerAbilityValue(AipOperatorType, AipAbilityType, i32),
    /// Compare a number drawn from `start..end` with a value.
    Random(AipOperatorType, i32, i32, i32),
    SelfAbilityValue(AipOperatorType, AipAbilityType, i32),
    SelectLocalNpc(i32),
    MonthDay(Option<u8>, i32, i32),
    WeekDay(u8, i32, i32),
    WorldTime(u32, u32),
    ZoneTime(u32, u32),
    IsDaytime(bool),
    Variable(AipVariableType, usize, AipOperatorType, i32),
    ServerChannelNumber(u16, u16),
    HasStatusEffect(AipHaveStatusTarget, AipHaveStatusType, bool),
    TargetAbilityValue(AipOperatorType, AipAbilityType, i32),
    CompareAttackerAndTargetAbilityValue(AipOperatorType, AipAbilityType),
    OwnerHasTarget,
    Other,
}

/// An NPC of the zone that AI programs can select, with its variables.
#[derive(Clone, Debug)]
pub struct LocalNpc {
    pub npc_id: u16,
    pub entity: u64,
    pub variables: Vec<i32>,
}

/// What an NPC's AI reads of the world while it checks conditions.
#[derive(Clone, Debug)]
pub struct AiView {
    pub source: u64,
    pub abilities: AiAbilityValues,
    pub health_points: u32,
    pub max_health: i32,
    pub zone: u16,
    pub team: u32,
    pub target: Option<u64>,
    /// The target's abilities and health, when it is found.
    pub target_info: Option<(AiAbilityValues, u32)>,
    pub target_effects: Option<Vec<StatusEffectSlot>>,
    pub own_effects: Vec<StatusEffectSlot>,
    /// The owner's zone, when the NPC has an owner that is found.
    pub owner_zone: Option<u16>,
    /// The owner's target, when the NPC has an owner that is found.
    pub owner_target: Option<Option<u64>>,
    /// The attacker, with its abilities and health.
    pub attacker: Option<(u64, AiAbilityValues, u32)>,
    pub damage_received: Option<u32>,
    /// The square of the distance (as a whole number) to the spawn point,
    /// the owner and the target, when known.
    pub distance_squared_to_spawn: Option<i32>,
    pub distance_squared_to_owner: Option<i32>,
    pub distance_squared_to_target: Option<i32>,
    pub local_time: LocalTime,
    pub world_time: u32,
    /// The times of day of the NPC's zone, when it has zone data.
    pub zone_times: Option<ZoneDayTimes>,
    pub own_variables: Vec<i32>,
    pub local_npcs: Vec<LocalNpc>,
    /// For each search distance, the entities within it in the order the
    /// zone lists them; a distance not listed means the zone is unknown.
    pub nearby: Vec<(i32, Vec<NearbyEntity>)>,
}

/// What the conditions remember while an AI trigger runs: the entity found
/// by a search, the nearest one seen, and the selected local NPC.
#[derive(Clone, Copy, Debug, PartialEq, Eq, Structural)]
pub struct AiState {
    pub find_char: Option<u64>,
    pub near_char: Option<u64>,
    pub selected_local_npc: Option<u64>,
}

/// `k` is the first nearby list for `distance`.
pub open spec fn nearby_at(view: AiView, distance: i32, k: int) -> bool {
    &&& 0 <= k < view.nearby@.len()
    &&& view.nearby@[k].0 == distance
    &&& forall|j: int| 0 <= j < k ==> view.nearby@[j].0 != distance
}

/// The entities within `distance`, if the zone is known.
pub open spec fn nearby_for(view: AiView, distance: i32) -> Option<Seq<NearbyEntity>> {
    if exists|k: int| nearby_at(view, distance, k) {
        Some(view.nearby@[choose|k: int| nearby_at(view, distance, k)].1@)
    } else {
        None
    }
}

/// `k` is the first local NPC with this id.
pub open spec fn local_npc_at(view: AiView, npc_id: u16, k: int) -> bool {
    &&& 0 <= k < view.local_npcs@.len()
    &&& view.local_npcs@[k].npc_id == npc_id
    &&& forall|j: int| 0 <= j < k ==> view.local_npcs@[j].npc_id != npc_id
}

/// The local NPC selected by id: the first one with the id (cut to 16
/// bits); zero selects none.
pub open spec fn select_local_npc(view: AiView, npc_id: i32) -> Option<u64> {
    let id = npc_id as u16;
    if id != 0 && exists|k: int| local_npc_at(view, id, k) {
        Some(view.local_npcs@[choose|k: int| local_npc_at(view, id, k)].entity)
    } else {
        None
    }
}

/// `k` is the first local NPC standing for this entity.
pub open spec fn local_entity_at(view: AiView, entity: u64, k: int) -> bool {
    &&& 0 <= k < view.local_npcs@.len()
    &&& view.local_npcs@[k].entity == entity
    &&& forall|j: int| 0 <= j < k ==> view.local_npcs@[j].entity != entity
}

/// The variables a variable condition reads: the selected local NPC's, or
/// the NPC's own.
pub open spec fn variables_for(view: AiView, st: AiState, variable_type: AipVariableType) -> Option<Seq<i32>> {
    match variable_type {
        AipVariableType::LocalNpcObject => match st.selected_local_npc {
            Some(e) => if exists|k: int| local_entity_at(view, e, k) {
                Some(view.local_npcs@[choose|k: int| local_entity_at(view, e, k)].variables@)
            } else {
                None
            },
            None => None,
        },
        AipVariableType::Ai => Some(view.own_variables@),
        _ => None,
    }
}

pub open spec fn distance_squared(view: AiView, origin: AipDistanceOrigin) -> Option<i32> {
    match origin {
        AipDistanceOrigin::Spawn => view.distance_squared_to_spawn,
        AipDistanceOrigin::Owner => view.distance_squared_to_owner,
        AipDistanceOrigin::Target => view.distance_squared_to_target,
    }
}

pub open spec fn effects_of(view: AiView, who: AipHaveStatusTarget) -> Option<Seq<StatusEffectSlot>> {
    match who {
        AipHaveStatusTarget::This => Some(view.own_effects@),
        AipHaveStatusTarget::Target => match view.target_effects {
            Some(e) => Some(e@),
            None => None,
        },
    }
}

pub open spec fn attacker_stats(view: AiView) -> Option<(AiAbilityValues, u32)> {
    match view.attacker {
        Some((_, a, hp)) => Some((a, hp)),
        None => None,
    }
}

pub open spec fn attacker_entity(view: AiView) -> Option<u64> {
    match view.attacker {
        Some((e, _, _)) => Some(e),
        None => None,
    }
}

/// The search a "find nearby entities" condition makes.
pub open spec fn nearby_search(view: AiView, is_allied: bool, level_diff_min: i32, level_diff_max: i32,
    count_operator: Option<AipOperatorType>, count: i32) -> NearbySearch {
    NearbySearch {
        source: view.source,
        source_level: view.abilities.level,
        source_team: view.team,
        is_allied,
        level_diff_min,
        level_diff_max,
        count_operator,
        count,
    }
}

/// The inputs on which a condition can be evaluated without the server
/// panicking.
pub open spec fn condition_in_range(view: AiView, c: AipCondition) -> bool {
    match c {
        AipCondition::FindNearbyEntities { distance, .. } =>
            nearby_for(view, distance) matches Some(es) ==> es.len() < i32::MAX,
        AipCondition::Distance(_, _, value) => i32::MIN <= value * value <= i32::MAX,
        AipCondition::HealthPercent(_, _) => {
            &&& view.max_health != 0
            &&& i32::MIN <= 100 * (view.health_points as i32) <= i32::MAX
            &&& !(100 * (view.health_points as i32) == i32::MIN && view.max_health == -1)
        },
        AipCondition::Random(_, start, end, _) => start < end,
        AipCondition::MonthDay(_, _, _) | AipCondition::WeekDay(_, _, _) =>
            view.local_time.hour < 24 && view.local_time.minute < 60,
        AipCondition::ZoneTime(_, _) | AipCondition::IsDaytime(_) =>
            view.zone_times matches Some(z) ==> z.day_cycle != 0 && z.evening_time + z.night_time <= u32::MAX,
        _ => true,
    }
}

/// The meaning of a "find nearby entities" condition: the search looks
/// through the entities within the distance (failing in an unknown zone),
/// remembers the nearest, and on success records the entity found.
pub open spec fn nearby_condition(view: AiView, st: AiState, distance: i32, search: NearbySearch) -> (AiState, bool) {
    match nearby_for(view, distance) {
        Some(es) => {
            let scan = search_scan(es, search, st.near_char, es.len());
            let found = search_result(scan, search);
            (AiState { near_char: scan.near, find_char: if found is Some { found } else { st.find_char }, ..st }, found is Some)
        },
        None => (st, false),
    }
}

pub open spec fn damage_condition(view: AiView, damage_type: AipDamageType, operator: AipOperatorType, value: i32) -> bool {
    match damage_type {
        AipDamageType::Given => false,
        AipDamageType::Received => aip_compare(operator,
            (match view.damage_received { Some(d) => d as i32, None => 0i32 }) as int, value as int),
    }
}

/// The squared distance compares to the square of `value`; fails when the
/// origin is unknown.
pub open spec fn distance_condition(view: AiView, origin: AipDistanceOrigin, operator: AipOperatorType, value: i32) -> bool {
    match distance_squared(view, origin) {
        Some(d) => aip_compare(operator, d as int, value * value),
        None => false,
    }
}

pub open spec fn health_condition(view: AiView, operator: AipOperatorType, value: i32) -> bool {
    aip_compare(operator, rust_div(100 * (view.health_points as i32), view.max_health as int), value as int)
}

pub open spec fn no_target_attacker_condition(view: AiView, operator: AipOperatorType, ability: AipAbilityType, value: i32) -> bool {
    view.target is None && match attacker_stats(view) {
        Some((a, hp)) => aip_compare(operator, aip_ability_value(a, hp, ability) as int, value as int),
        None => false,
    }
}

pub open spec fn month_day_condition(view: AiView, month_day: Option<u8>, start: i32, end: i32) -> bool {
    (month_day matches Some(d) ==> d as u32 == view.local_time.day)
        && start <= local_day_minutes(view.local_time) <= end
}

pub open spec fn week_day_condition(view: AiView, week_day: u8, start: i32, end: i32) -> bool {
    week_day as u32 == view.local_time.weekday_from_sunday && start <= local_day_minutes(view.local_time) <= end
}

pub open spec fn zone_time_condition(view: AiView, start: u32, end: u32) -> bool {
    start <= zone_time(view.world_time, match view.zone_times { Some(z) => Some(z.day_cycle), None => None }) <= end
}

pub open spec fn daytime_condition(view: AiView, daytime: bool) -> bool {
    match view.zone_times {
        Some(z) => daytime == is_daytime(z, view.world_time),
        None => daytime,
    }
}

pub open spec fn status_condition(view: AiView, who: AipHaveStatusTarget, category: AipHaveStatusType, have: bool) -> bool {
    match effects_of(view, who) {
        Some(slots) => have == has_effect(slots, category),
        None => false,
    }
}

pub open spec fn target_ability_condition(view: AiView, operator: AipOperatorType, ability: AipAbilityType, value: i32) -> bool {
    match view.target_info {
        Some((a, hp)) => aip_compare(operator, aip_ability_value(a, hp, ability) as int, value as int),
        None => false,
    }
}

pub open spec fn attacker_vs_target_condition(view: AiView, operator: AipOperatorType, ability: AipAbilityType) -> bool {
    match (attacker_stats(view), view.target_info) {
        (Some((a, ahp)), Some((t, thp))) =>
            aip_compare(operator, aip_ability_value(a, ahp, ability) as int, aip_ability_value(t, thp, ability) as int),
        _ => false,
    }
}

/// The meaning of one condition, given the number drawn for it (read only
/// by a random condition).
pub open spec fn spec_ai_condition(view: AiView, st: AiState, c: AipCondition, roll: i32) -> (AiState, bool) {
    match c {
        AipCondition::FindNearbyEntities { distance, is_allied, level_diff_min, level_diff_max, count_operator, count } =>
            nearby_condition(view, st, distance, nearby_search(view, is_allied, level_diff_min, level_diff_max, count_operator, count)),
        AipCondition::Damage(damage_type, operator, value) => (st, damage_condition(view, damage_type, operator, value)),
        AipCondition::Distance(origin, operator, value) => (st, distance_condition(view, origin, operator, value)),
        AipCondition::HasNoOwner => (st, match view.owner_zone { Some(z) => z != view.zone, None => true }),
        AipCondition::HealthPercent(operator, value) => (st, health_condition(view, operator, value)),
        AipCondition::IsAttackerCurrentTarget =>
            (st, attacker_entity(view) is Some && view.target is Some && attacker_entity(view) == view.target),
        AipCondition::NoTargetAndCompareAttackerAbilityValue(operator, ability, value) =>
            (st, no_target_attacker_condition(view, operator, ability, value)),
        AipCondition::Random(operator, _, _, value) => (st, aip_compare(operator, roll as int, value as int)),
        AipCondition::SelfAbilityValue(operator, ability, value) =>
            (st, aip_compare(operator, aip_ability_value(view.abilities, view.health_points, ability) as int, value as int)),
        AipCondition::SelectLocalNpc(npc_id) => {
            let npc = select_local_npc(view, npc_id);
            (AiState { selected_local_npc: npc, ..st }, npc is Some)
        },
        AipCondition::MonthDay(month_day, start, end) => (st, month_day_condition(view, month_day, start, end)),
        AipCondition::WeekDay(week_day, start, end) => (st, week_day_condition(view, week_day, start, end)),
        AipCondition::WorldTime(start, end) => (st, start <= view.world_time <= end),
        AipCondition::ZoneTime(start, end) => (st, zone_time_condition(view, start, end)),
        AipCondition::IsDaytime(daytime) => (st, daytime_condition(view, daytime)),
        AipCondition::Variable(variable_type, id, operator, value) =>
            (st, aip_compare(operator, variable_value(variable_type, variables_for(view, st, variable_type), id) as int, value as int)),
        AipCondition::ServerChannelNumber(start, end) => (st, start <= 1 <= end),
        AipCondition::HasStatusEffect(who, category, have) => (st, status_condition(view, who, category, have)),
        AipCondition::TargetAbilityValue(operator, ability, value) => (st, target_ability_condition(view, operator, ability, value)),
        AipCondition::CompareAttackerAndTargetAbilityValue(operator, ability) =>
            (st, attacker_vs_target_condition(view, operator, ability)),
        AipCondition::OwnerHasTarget => (st, view.owner_target matches Some(Some(_))),
        AipCondition::Other => (st, false),
    }
}

fn find_nearby(view: &AiView, distance: i32) -> (result: Option<usize>)
    ensures
        match result {
            Some(k) => nearby_at(*view, distance, k as int),
            None => forall|j: int| 0 <= j < view.nearby@.len() ==> view.nearby@[j].0 != distance,
        },
{
    let mut k: usize = 0;
    while k < view.nearby.len()
        invariant
            k <= view.nearby.len(),
            forall|j: int| 0 <= j < k ==> view.nearby@[j].0 != distance,
        decreases view.nearby.len() - k,
    {
        if view.nearby[k].0 == distance {
            return Some(k);
        }
        k += 1;
    }
    None
}

fn find_local_npc(view: &AiView, npc_id: u16) -> (result: Option<usize>)
    ensures
        match result {
            Some(k) => local_npc_at(*view, npc_id, k as int),
            None => forall|j: int| 0 <= j < view.local_npcs@.len() ==> view.local_npcs@[j].npc_id != npc_id,
        },
{
    let mut k: usize = 0;
    while k < view.local_npcs.len()
        invariant
            k <= view.local_npcs.len(),
            forall|j: int| 0 <= j < k ==> view.local_npcs@[j].npc_id != npc_id,
        decreases view.local_npcs.len() - k,
    {
        if view.local_npcs[k].npc_id == npc_id {
            return Some(k);
        }
        k += 1;
    }
    None
}

fn find_local_entity(view: &AiView, entity: u64) -> (result: Option<usize>)
    ensures
        match result {
            Some(k) => local_entity_at(*view, entity, k as int),
            None => forall|j: int| 0 <= j < view.local_npcs@.len() ==> view.local_npcs@[j].entity != entity,
        },
{
    let mut k: usize = 0;
    while k < view.local_npcs.len()
        invariant
            k <= view.local_npcs.len(),
            forall|j: int| 0 <= j < k ==> view.local_npcs@[j].entity != entity,
        decreases view.local_npcs.len() - k,
    {
        if view.local_npcs[k].entity == entity {
            return Some(k);
        }
        k += 1;
    }
    None
}

proof fn lemma_nearby_choose(view: AiView, distance: i32, k: int)
    requires
        nearby_at(view, distance, k),
    ensures
        (choose|j: int| nearby_at(view, distance, j)) == k,
{
    let j = choose|j: int| nearby_at(view, distance, j);
    assert(nearby_at(view, distance, j));
    if j < k { assert(view.nearby@[j].0 != distance); }
    if k < j { assert(view.nearby@[k].0 != distance); }
}

proof fn lemma_local_npc_choose(view: AiView, npc_id: u16, k: int)
    requires
        local_npc_at(view, npc_id, k),
    ensures
        (choose|j: int| local_npc_at(view, npc_id, j)) == k,
{
    let j = choose|j: int| local_npc_at(view, npc_id, j);
    assert(local_npc_at(view, npc_id, j));
    if j < k { assert(view.local_npcs@[j].npc_id != npc_id); }
    if k < j { assert(view.local_npcs@[k].npc_id != npc_id); }
}

proof fn lemma_local_entity_choose(view: AiView, entity: u64, k: int)
    requires
        local_entity_at(view, entity, k),
    ensures
        (choose|j: int| local_entity_at(view, entity, j)) == k,
{
    let j = choose|j: int| local_entity_at(view, entity, j);
    assert(local_entity_at(view, entity, j));
    if j < k { assert(view.local_npcs@[j].entity != entity); }
    if k < j { assert(view.local_npcs@[k].entity != entity); }
}

fn check_status_effect(view: &AiView, who: AipHaveStatusTarget, category: AipHaveStatusType, have: bool) -> (holds: bool)
    ensures
        holds == status_condition(*view, who, category, have),
{
    match who {
        AipHaveStatusTarget::This => ai_condition_has_status_effect(Some(&view.own_effects), category, have),
        AipHaveStatusTarget::Target => match &view.target_effects {
            Some(e) => ai_condition_has_status_effect(Some(e), category, have),
            None => ai_condition_has_status_effect(None, category, have),
        },
    }
}

fn check_find_nearby(view: &AiView, state: AiState, distance: i32, search: NearbySearch) -> (result: (AiState, bool))
    requires
        nearby_for(*view, distance) matches Some(es) ==> es.len() < i32::MAX,
    ensures
        result == nearby_condition(*view, state, distance, search),
{
    match find_nearby(view, distance) {
        Some(k) => {
            proof { lemma_nearby_choose(*view, distance, k as int); }
            let entities = &view.nearby[k].1;
            let mut near = state.near_char;
            let found = ai_condition_count_nearby_entities(entities, search, &mut near);
            let next = AiState {
                near_char: near,
                find_char: if found.is_some() { found } else { state.find_char },
                selected_local_npc: state.selected_local_npc,
            };
            (next, found.is_some())
        },
        None => {
            assert(!exists|j: int| nearby_at(*view, distance, j));
            (state, false)
        },
    }
}

fn check_distance(view: &AiView, origin: AipDistanceOrigin, operator: AipOperatorType, value: i32) -> (holds: bool)
    requires
        i32::MIN <= value * value <= i32::MAX,
    ensures
        holds == distance_condition(*view, origin, operator, value),
{
    let d = match origin {
        AipDistanceOrigin::Spawn => view.distance_squared_to_spawn,
        AipDistanceOrigin::Owner => view.distance_squared_to_owner,
        AipDistanceOrigin::Target => view.distance_squared_to_target,
    };
    match d {
        Some(d) => compare_aip_value(operator, d, value * value),
        None => false,
    }
}

fn check_select_local_npc(view: &AiView, npc_id: i32) -> (npc: Option<u64>)
    ensures
        npc == select_local_npc(*view, npc_id),
{
    let id: u16 = npc_id as u16;
    if id == 0 {
        return None;
    }
    match find_local_npc(view, id) {
        Some(k) => {
            proof { lemma_local_npc_choose(*view, id, k as int); }
            Some(view.local_npcs[k].entity)
        },
        None => {
            assert(!exists|j: int| local_npc_at(*view, id, j));
            None
        },
    }
}

fn check_variable(view: &AiView, state: &AiState, variable_type: AipVariableType, id: usize, operator: AipOperatorType, value: i32)
    -> (holds: bool)
    ensures
        holds == aip_compare(operator, variable_value(variable_type, variables_for(*view, *state, variable_type), id) as int, value as int),
{
    match variable_type {
        AipVariableType::LocalNpcObject => match state.selected_local_npc {
            Some(e) => match find_local_entity(view, e) {
                Some(k) => {
                    proof { lemma_local_entity_choose(*view, e, k as int); }
                    ai_condition_variable(variable_type, Some(&view.local_npcs[k].variables), id, operator, value)
                },
                None => {
                    assert(!exists|j: int| local_entity_at(*view, e, j));
                    ai_condition_variable(variable_type, None, id, operator, value)
                },
            },
            None => ai_condition_variable(variable_type, None, id, operator, value),
        },
        AipVariableType::Ai => ai_condition_variable(variable_type, Some(&view.own_variables), id, operator, value),
        _ => ai_condition_variable(variable_type, None, id, operator, value),
    }
}

/// The conditions that only read the world.
pub open spec fn reads_only(c: AipCondition) -> bool {
    !(c is FindNearbyEntities || c is SelectLocalNpc || c is Random)
}

fn check_reading_condition(view: &AiView, state: &AiState, condition: &AipCondition) -> (holds: bool)
    requires
        reads_only(*condition),
        condition_in_range(*view, *condition),
    ensures
        holds == spec_ai_condition(*view, *state, *condition, 0).1,
{
    match *condition {
        AipCondition::Damage(damage_type, operator, value) => ai_condition_damage(view.damage_received, damage_type, operator, value),
        AipCondition::Distance(origin, operator, value) => check_distance(view, origin, operator, value),
        AipCondition::HasNoOwner => ai_condition_has_no_owner(view.owner_zone, view.zone),
        AipCondition::HealthPercent(operator, value) => ai_condition_health_percent(view.health_points, view.max_health, operator, value),
        AipCondition::IsAttackerCurrentTarget => {
            let attacker = match view.attacker {
                Some((e, _, _)) => Some(e),
                None => None,
            };
            ai_condition_is_attacker_current_target(attacker, view.target)
        },
        AipCondition::NoTargetAndCompareAttackerAbilityValue(operator, ability, value) => {
            let attacker = match view.attacker {
                Some((_, a, hp)) => Some((a, hp)),
                None => None,
            };
            ai_condition_no_target_and_compare_attacker_ability_value(view.target.is_some(), attacker, operator, ability, value)
        },
        AipCondition::SelfAbilityValue(operator, ability, value) =>
            ai_condition_source_ability_value(&view.abilities, view.health_points, operator, ability, value),
        AipCondition::MonthDay(month_day, start, end) => ai_condition_month_day_time(view.local_time, month_day, start, end),
        AipCondition::WeekDay(week_day, start, end) => ai_condition_week_day_time(view.local_time, week_day, start, end),
        AipCondition::WorldTime(start, end) => start <= view.world_time && view.world_time <= end,
        AipCondition::ZoneTime(start, end) => {
            let day_cycle = match view.zone_times {
                Some(z) => Some(z.day_cycle),
                None => None,
            };
            ai_condition_zone_time(view.world_time, day_cycle, start, end)
        },
        AipCondition::IsDaytime(daytime) => ai_condition_is_zone_daytime(view.world_time, view.zone_times, daytime),
        AipCondition::Variable(variable_type, id, operator, value) => check_variable(view, state, variable_type, id, operator, value),
        AipCondition::ServerChannelNumber(start, end) => ai_condition_server_channel_number(start, end),
        AipCondition::HasStatusEffect(who, category, have) => check_status_effect(view, who, category, have),
        AipCondition::TargetAbilityValue(operator, ability, value) =>
            ai_condition_target_ability_value(view.target_info, operator, ability, value),
        AipCondition::CompareAttackerAndTargetAbilityValue(operator, ability) => {
            let attacker = match view.attacker {
                Some((_, a, hp)) => Some((a, hp)),
                None => None,
            };
            ai_condition_attacker_and_target_ability_value(attacker, view.target_info, operator, ability)
        },
        AipCondition::OwnerHasTarget => ai_condition_owner_has_target(view.owner_target),
        _ => false,
    }
}

/// Checks one condition of an AI event. Returns whether it holds and the
/// number drawn for it (for a random condition; zero otherwise).
pub fn ai_check_condition(view: &AiView, state: &mut AiState, condition: &AipCondition) -> (result: (bool, Ghost<i32>))
    requires
        condition_in_range(*view, *condition),
    ensures
        (*final(state), result.0) == spec_ai_condition(*view, *old(state), *condition, result.1@),
        *condition matches AipCondition::Random(_, start, end, _) ==> start <= result.1@ < end,
{
    match *condition {
        AipCondition::FindNearbyEntities { distance, is_allied, level_diff_min, level_diff_max, count_operator, count } => {
            let search = NearbySearch {
                source: view.source,
                source_level: view.abilities.level,
                source_team: view.team,
                is_allied,
                level_diff_min,
                level_diff_max,
                count_operator,
                count,
            };
            let (next, holds) = check_find_nearby(view, *state, distance, search);
            *state = next;
            (holds, Ghost(0))
        },
        AipCondition::SelectLocalNpc(npc_id) => {
            let npc = check_select_local_npc(view, npc_id);
            state.selected_local_npc = npc;
            (npc.is_some(), Ghost(0))
        },
        AipCondition::Random(operator, start, end, value) => {
            let r = random_in_range(start, end);
            (compare_aip_value(operator, r, value), Ghost(r))
        },
        _ => (check_reading_condition(view, state, condition), Ghost(0)),
    }
}

/// An event of an AI program, as far as choosing it goes: its conditions.
/// Its actions stay with the caller, who carries out those of the chosen
/// event.
#[derive(Clone, Debug)]
pub struct AipEvent {
    pub conditions: Vec<AipCondition>,
}

/// The first `n` conditions checked in order, stopping at the first that
/// fails; `rolls` are the numbers drawn for them.
pub open spec fn spec_ai_conditions(view: AiView, st: AiState, conditions: Seq<AipCondition>, rolls: Seq<i32>, n: nat)
    -> (AiState, bool)
    decreases n,
{
    if n == 0 {
        (st, true)
    } else {
        let (q, ok) = spec_ai_conditions(view, st, conditions, rolls, (n - 1) as nat);
        if !ok { (q, false) } else { spec_ai_condition(view, q, conditions[n - 1], rolls[n - 1]) }
    }
}

/// Numbers as chance can draw them: each random condition's lies in its range.
pub open spec fn rolls_fit(conditions: Seq<AipCondition>, rolls: Seq<i32>) -> bool {
    &&& rolls.len() == conditions.len()
    &&& forall|i: int| 0 <= i < conditions.len() ==> (#[trigger] conditions[i] matches AipCondition::Random(_, start, end, _)
        ==> start <= rolls[i] < end)
}

/// A number in range for a condition never reached.
pub open spec fn unused_roll(c: AipCondition) -> i32 {
    match c {
        AipCondition::Random(_, start, _, _) => start,
        _ => 0,
    }
}

pub open spec fn conditions_in_range(view: AiView, conditions: Seq<AipCondition>) -> bool {
    forall|i: int| 0 <= i < conditions.len() ==> condition_in_range(view, #[trigger] conditions[i])
}

proof fn lemma_conditions_prefix(view: AiView, st: AiState, conditions: Seq<AipCondition>, a: Seq<i32>, b: Seq<i32>, n: nat)
    requires
        n <= a.len(), n <= b.len(),
        forall|k: int| 0 <= k < n ==> a[k] == b[k],
    ensures
        spec_ai_conditions(view, st, conditions, a, n) == spec_ai_conditions(view, st, conditions, b, n),
    decreases n,
{
    if n > 0 {
        lemma_conditions_prefix(view, st, conditions, a, b, (n - 1) as nat);
    }
}

proof fn lemma_conditions_stay_failed(view: AiView, st: AiState, conditions: Seq<AipCondition>, rolls: Seq<i32>, i: nat, n: nat)
    requires
        i <= n,
        !spec_ai_conditions(view, st, conditions, rolls, i).1,
    ensures
        spec_ai_conditions(view, st, conditions, rolls, n) == spec_ai_conditions(view, st, conditions, rolls, i),
    decreases n - i,
{
    if i < n {
        lemma_conditions_stay_failed(view, st, conditions, rolls, i, (n - 1) as nat);
    }
}

/// Checks the conditions of an event in order, stopping at the first that
/// fails. Returns whether all held, with the numbers drawn.
pub fn ai_event_conditions_hold(view: &AiView, state: &mut AiState, event: &AipEvent) -> (result: (bool, Ghost<Seq<i32>>))
    requires
        conditions_in_range(*view, event.conditions@),
    ensures
        rolls_fit(event.conditions@, result.1@),
        (*final(state), result.0) == spec_ai_conditions(*view, *old(state), event.conditions@, result.1@, event.conditions@.len()),
{
    let ghost cs = event.conditions@;
    let ghost st0 = *state;
    let ghost mut rolls: Seq<i32> = Seq::empty();
    let mut ok = true;
    let mut i: usize = 0;
    while i < event.conditions.len() && ok
        invariant
            i <= event.conditions.len(),
            cs == event.conditions@,
            conditions_in_range(*view, cs),
            rolls.len() == i,
            forall|k: int| 0 <= k < i ==> (#[trigger] cs[k] matches AipCondition::Random(_, start, end, _) ==> start <= rolls[k] < end),
            (*state, ok) == spec_ai_conditions(*view, st0, cs, rolls, i as nat),
        decreases event.conditions.len() - i,
    {
        let ghost before = rolls;
        let (holds, roll) = ai_check_condition(view, state, &event.conditions[i]);
        proof {
            rolls = rolls.push(roll@);
            lemma_conditions_prefix(*view, st0, cs, before, rolls, i as nat);
        }
        ok = holds;
        i += 1;
    }
    let ghost full = rolls + Seq::new((cs.len() - i) as nat, |k: int| unused_roll(cs[i + k]));
    proof {
        lemma_conditions_prefix(*view, st0, cs, rolls, full, i as nat);
        if !ok {
            lemma_conditions_stay_failed(*view, st0, cs, full, i as nat, cs.len());
        }
        assert forall|k: int| 0 <= k < cs.len() implies (#[trigger] cs[k] matches AipCondition::Random(_, start, end, _)
            ==> start <= full[k] < end) by {
            if k >= i {
                assert(full[k] == unused_roll(cs[k]));
                assert(condition_in_range(*view, cs[k]));
            } else {
                assert(full[k] == rolls[k]);
            }
        }
    }
    (ok, Ghost(full))
}

/// The events an AI trigger runs: the first `n` events are tried in order
/// until one's conditions all hold; the state the checks leave carries over
/// from each event to the next. Returns the state and the chosen event.
pub open spec fn spec_ai_trigger(view: AiView, st: AiState, events: Seq<Seq<AipCondition>>, rolls: Seq<Seq<i32>>, n: nat)
    -> (AiState, Option<int>)
    decreases n,
{
    if n == 0 {
        (st, None)
    } else {
        let (q, chosen) = spec_ai_trigger(view, st, events, rolls, (n - 1) as nat);
        if chosen is Some {
            (q, chosen)
        } else {
            let (q2, ok) = spec_ai_conditions(view, q, events[n - 1], rolls[n - 1], events[n - 1].len());
            (q2, if ok { Some(n - 1) } else { None })
        }
    }
}

pub open spec fn event_conditions(events: Seq<AipEvent>) -> Seq<Seq<AipCondition>> {
    events.map_values(|e: AipEvent| e.conditions@)
}

proof fn lemma_trigger_prefix(view: AiView, st: AiState, events: Seq<Seq<AipCondition>>, a: Seq<Seq<i32>>, b: Seq<Seq<i32>>, n: nat)
    requires
        n <= a.len(), n <= b.len(),
        forall|k: int| 0 <= k < n ==> a[k] == b[k],
    ensures
        spec_ai_trigger(view, st, events, a, n) == spec_ai_trigger(view, st, events, b, n),
    decreases n,
{
    if n > 0 {
        lemma_trigger_prefix(view, st, events, a, b, (n - 1) as nat);
    }
}

proof fn lemma_trigger_stays_chosen(view: AiView, st: AiState, events: Seq<Seq<AipCondition>>, rolls: Seq<Seq<i32>>, i: nat, n: nat)
    requires
        i <= n,
        spec_ai_trigger(view, st, events, rolls, i).1 is Some,
    ensures
        spec_ai_trigger(view, st, events, rolls, n) == spec_ai_trigger(view, st, events, rolls, i),
    decreases n - i,
{
    if i < n {
        lemma_trigger_stays_chosen(view, st, events, rolls, i, (n - 1) as nat);
    }
}

/// Runs an AI trigger: tries its events in order and returns the first
/// whose conditions all hold, whose actions the caller then carries out.
pub fn npc_ai_run_trigger(view: &AiView, state: &mut AiState, events: &Vec<AipEvent>) -> (chosen: Option<usize>)
    requires
        forall|e: int| 0 <= e < events@.len() ==> conditions_in_range(*view, #[trigger] events@[e].conditions@),
    ensures
        exists|rolls: Seq<Seq<i32>>| {
            &&& rolls.len() == events@.len()
            &&& forall|e: int| 0 <= e < events@.len() ==> rolls_fit(#[trigger] events@[e].conditions@, rolls[e])
            &&& (*final(state), match chosen { Some(k) => Some(k as int), None => None::<int> })
                == spec_ai_trigger(*view, *old(state), event_conditions(events@), rolls, events@.len())
        },
{
    let ghost es = event_conditions(events@);
    let ghost st0 = *state;
    let ghost mut rolls: Seq<Seq<i32>> = Seq::empty();
    let mut chosen: Option<usize> = None;
    let mut i: usize = 0;
    while i < events.len() && chosen.is_none()
        invariant
            i <= events.len(),
            es == event_conditions(events@),
            forall|e: int| 0 <= e < events@.len() ==> conditions_in_range(*view, #[trigger] events@[e].conditions@),
            rolls.len() == i,
            forall|e: int| 0 <= e < i ==> rolls_fit(#[trigger] events@[e].conditions@, rolls[e]),
            (*state, match chosen { Some(k) => Some(k as int), None => None::<int> }) == spec_ai_trigger(*view, st0, es, rolls, i as nat),
            chosen matches Some(k) ==> k < i,
        decreases events.len() - i,
    {
        let ghost before = rolls;
        assert(conditions_in_range(*view, events@[i as int].conditions@));
        let (holds, event_rolls) = ai_event_conditions_hold(view, state, &events[i]);
        proof {
            rolls = rolls.push(event_rolls@);
            lemma_trigger_prefix(*view, st0, es, before, rolls, i as nat);
            assert(es[i as int] == events@[i as int].conditions@);
        }
        if holds {
            chosen = Some(i);
        }
        i += 1;
    }
    let ghost full = rolls + Seq::new((events@.len() - i) as nat, |k: int|
        Seq::new(events@[i + k].conditions@.len(), |j: int| unused_roll(events@[i + k].conditions@[j])));
    proof {
        lemma_trigger_prefix(*view, st0, es, rolls, full, i as nat);
        if chosen is Some {
            lemma_trigger_stays_chosen(*view, st0, es, full, i as nat, events@.len());
        }
        assert forall|e: int| 0 <= e < events@.len() implies rolls_fit(#[trigger] events@[e].conditions@, full[e]) by {
            if e >= i {
                let cs = events@[e].conditions@;
                assert(full[e] == Seq::new(cs.len(), |j: int| unused_roll(cs[j])));
                assert(conditions_in_range(*view, cs));
                assert forall|j: int| 0 <= j < cs.len() implies (#[trigger] cs[j] matches AipCondition::Random(_, start, end, _)
                    ==> start <= full[e][j] < end) by {
                    assert(condition_in_range(*view, cs[j]));
                }
            } else {
                assert(full[e] == rolls[e]);
            }
        }
    }
    chosen
}

} // verus!

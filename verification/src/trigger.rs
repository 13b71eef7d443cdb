use vstd::prelude::*;
use crate::operators::QsdConditionOperator;
use crate::quest::{spec_money_dup_count_var, 
    LocalTime, QsdRewardQuestAction, QsdVariableType, QuestParameters, QuestParametersModel,
    spec_calculated_money, spec_quest_action, spec_quest_expire_time, spec_set_quest_switch,
    quest_variable_value, local_day_minutes,
    get_quest_calculated_money_dup_count_var, quest_condition_month_day_time, quest_reward_calculated_experience_points,
    quest_condition_quest_switch, quest_condition_quest_variable, quest_condition_select_quest,
    quest_condition_week_day_time, quest_condition_world_time, quest_reward_calculated_money,
    quest_reward_quest_action, quest_reward_set_quest_switch,
};
use crate::operators::{quest_compare, quest_condition_operator};
use crate::rewards::{AbilityUpdate, QuestSource, QuestSourceModel, spec_add_ability_value, spec_set_ability_value,
    quest_reward_add_ability_value, quest_reward_set_ability_value};
use crate::stats::AbilityType;
use crate::items::{EquipmentItem, Item, ItemReference};
use crate::quest_items::{QsdConditionQuestItem, spec_quest_item, spec_add_item, quest_condition_quest_items, quest_reward_add_item,
    calculated_item, item_type_is_stackable, needs_socket_roll, settle_reward_equipment, spec_add_to_inventory,
    quest_reward_calculated_item};
use crate::ai::random_in_range;

verus! {

/// How an ability value reward changes the value.
#[derive(Clone, Copy, Debug, PartialEq, Eq, Structural)]
pub enum QsdRewardOperator {
    Assign,
    Add,
    Subtract,
    Zero,
    One,
}

/// One comparison of a quest variable.
#[derive(Clone, Copy, Debug, PartialEq, Eq, Structural)]
pub struct QsdConditionQuestVariable {
    pub variable_type: QsdVariableType,
    pub variable_id: usize,
    pub operator: QsdConditionOperator,
    pub value: i32,
}

/// The quest trigger conditions this server evaluates; `Other` stands for
/// every condition it does not, which always fails.
#[derive(Clone, Debug)]
pub enum QsdCondition {
    SelectQuest(usize),
    QuestSwitch(usize, bool),
    QuestVariable(Vec<QsdConditionQuestVariable>),
    WorldTime(u32, u32),
    MonthDayTime(Option<u8>, i32, i32),
    WeekDayTime(u8, i32, i32),
    QuestItems(Vec<QsdConditionQuestItem>),
    /// Ability values of the entity, each compared with a value.
    AbilityValue(Vec<(AbilityType, QsdConditionOperator, i32)>),
    /// Whether the entity is in the condition's zone and nearer to its point
    /// than its distance, as the caller measured it: positions are floating
    /// point.
    Position(bool),
    Other,
}

/// The quest trigger rewards this server applies; `Other` stands for every
/// reward it does not, which always fails.
#[derive(Clone, Debug)]
pub enum QsdReward {
    Quest(QsdRewardQuestAction),
    AbilityValue(Vec<(AbilityType, QsdRewardOperator, i32)>),
    SetQuestSwitch(usize, bool),
    CalculatedMoney(usize, i32),
    /// Experience from a reward equation and its base value.
    CalculatedExperiencePoints(usize, i32),
    /// An item and how many of it.
    AddItem(ItemReference, usize),
    /// An item from a reward equation and its base value (the quantity of a
    /// stackable item), with the gem to fit into equipment.
    CalculatedItem(usize, i32, ItemReference, Option<ItemReference>),
    /// A skill to learn; zero names no skill.
    AddSkill(usize),
    /// A teleport to a zone (whose position the caller holds).
    Teleport(usize),
    CallLuaFunction,
    Trigger(String),
    Other,
}

/// A quest trigger: conditions that must all hold, then rewards applied in
/// order.
#[derive(Clone, Debug)]
pub struct QuestTrigger {
    pub conditions: Vec<QsdCondition>,
    pub rewards: Vec<QsdReward>,
    pub next_trigger_name: Option<String>,
}

/// The clocks and rates a quest trigger reads.
#[derive(Clone, Copy, Debug, PartialEq, Eq, Structural)]
pub struct QuestClock {
    pub world_ticks: u64,
    pub world_time: u32,
    pub local_time: LocalTime,
    pub reward_rate: i32,
}

impl QuestClock {
    pub open spec fn wf(self) -> bool {
        self.local_time.hour < 24 && self.local_time.minute < 60
    }
}

/// The game data a quest trigger consults: quest time limits, ability
/// values, the reward equations, and the items that item data makes. It
/// stands for the game's data tables and its ability value calculator,
/// which the server is given; each answer it gives is named by a spec
/// function of its arguments, so the same question always gets the same
/// answer. Learning a skill changes the world's skill lists, so its answer
/// is not named.
pub trait QuestData {
    spec fn time_limit_of(&self, quest_id: usize) -> Option<u64>;

    spec fn ability_value_of(&self, source: QuestSourceModel, ability_type: AbilityType) -> i32;

    spec fn new_item_of(&self, item: ItemReference, quantity: u32) -> Option<Item>;

    spec fn new_equipment_of(&self, item: ItemReference) -> Option<EquipmentItem>;

    spec fn rare_of(&self, item: ItemReference) -> (u8, i32);

    spec fn reward_value_of(&self, reward_equation_id: usize, base_reward_value: i32, dup_count: i32, level: i32,
        charm: i32, fame: i32, reward_rate: i32) -> i32;

    /// The time limit of a quest, if it has one.
    fn quest_time_limit(&self, quest_id: usize) -> (limit: Option<u64>)
        ensures
            limit == self.time_limit_of(quest_id);

    /// The current value of an ability of the entity (zero when it has
    /// none), as the game's ability rules give it.
    fn ability_value(&self, source: &QuestSource, ability_type: AbilityType) -> (value: i32)
        ensures
            value == self.ability_value_of(source@, ability_type);

    /// The item of `quantity` instances of `item`, if the item data makes one.
    fn new_item(&self, item: ItemReference, quantity: u32) -> (made: Option<Item>)
        ensures
            made == self.new_item_of(item, quantity);

    /// A new piece of equipment of `item`, if it names equipment.
    fn new_equipment_item(&self, item: ItemReference) -> (made: Option<EquipmentItem>)
        ensures
            made == self.new_equipment_of(item);

    /// Whether the entity learned the skill: the skill data and the
    /// entity's skill list decide, and the skill list is the world's.
    fn learn_skill(&self, source: &QuestSource, skill_id: u16) -> bool;

    /// The rare type and quality the item data gives `item` (zero for both
    /// when it has no data).
    fn rare_type_and_quality(&self, item: ItemReference) -> (rare: (u8, i32))
        ensures
            rare == self.rare_of(item);

    /// The value of a reward equation.
    fn calculate_reward_value(
        &self,
        reward_equation_id: usize,
        base_reward_value: i32,
        dup_count: i32,
        level: i32,
        charm: i32,
        fame: i32,
        reward_rate: i32,
    ) -> (value: i32)
        ensures
            value == self.reward_value_of(reward_equation_id, base_reward_value, dup_count, level, charm, fame, reward_rate);
}

/// The values the game gives the abilities a condition reads.
pub open spec fn condition_values<W: QuestData>(world: W, source: QuestSourceModel, condition: QsdCondition) -> Seq<i32> {
    match condition {
        QsdCondition::AbilityValue(entries) =>
            Seq::new(entries@.len(), |i: int| world.ability_value_of(source, entries@[i].0)),
        _ => Seq::empty(),
    }
}

/// The values for each condition of a list.
pub open spec fn conditions_values<W: QuestData>(world: W, source: QuestSourceModel, conditions: Seq<QsdCondition>)
    -> Seq<Seq<i32>>
{
    Seq::new(conditions.len(), |k: int| condition_values(world, source, conditions[k]))
}

/// Each ability compares as its entry says, `values` being the values the
/// game's ability rules gave the abilities.
pub open spec fn abilities_compare(entries: Seq<(AbilityType, QsdConditionOperator, i32)>, values: Seq<i32>) -> bool {
    forall|i: int| 0 <= i < entries.len() ==> i < values.len() && quest_compare(#[trigger] entries[i].1, values[i] as int, entries[i].2 as int)
}

/// The meaning of one condition; `values` are the ability values the game
/// gave an ability value condition.
pub open spec fn spec_condition(p: QuestParametersModel, condition: QsdCondition, clock: QuestClock, values: Seq<i32>) -> (QuestParametersModel, bool) {
    match condition {
        QsdCondition::SelectQuest(quest_id) => spec_quest_action(p, QsdRewardQuestAction::Select(quest_id), None),
        QsdCondition::QuestSwitch(switch_id, value) => (p, p.quest_state matches Some(qs)
            && switch_id < qs.quest_switches.len() && qs.quest_switches[switch_id as int] == value),
        QsdCondition::QuestVariable(vars) => (p, forall|i: int| 0 <= i < vars@.len() ==>
            (#[trigger] quest_variable_value(p, clock.world_ticks, vars@[i].variable_type, vars@[i].variable_id) matches Some(v)
                && quest_compare(vars@[i].operator, v, vars@[i].value as int))),
        QsdCondition::WorldTime(start, end) => (p, start <= clock.world_time <= end),
        QsdCondition::MonthDayTime(month_day, start, end) => (p,
            (month_day matches Some(d) ==> d as u32 == clock.local_time.day)
            && start <= local_day_minutes(clock.local_time) <= end),
        QsdCondition::WeekDayTime(week_day, start, end) => (p,
            week_day as u32 == clock.local_time.weekday_from_sunday
            && start <= local_day_minutes(clock.local_time) <= end),
        QsdCondition::QuestItems(items) => (p, forall|i: int| 0 <= i < items@.len() ==> #[trigger] spec_quest_item(p, items@[i])),
        QsdCondition::AbilityValue(entries) => (p, abilities_compare(entries@, values)),
        QsdCondition::Position(within) => (p, within),
        QsdCondition::Other => (p, false),
    }
}

/// The first `n` conditions checked in order, stopping at the first that fails.
pub open spec fn spec_conditions(p: QuestParametersModel, conditions: Seq<QsdCondition>, clock: QuestClock,
    values: Seq<Seq<i32>>, n: nat) -> (QuestParametersModel, bool)
    decreases n,
{
    if n == 0 {
        (p, true)
    } else {
        let (q, ok) = spec_conditions(p, conditions, clock, values, (n - 1) as nat);
        if !ok { (q, false) } else { spec_condition(q, conditions[n - 1], clock, values[n - 1]) }
    }
}

/// Checking a trigger's conditions changes nothing but which quest is
/// selected.
pub proof fn law_conditions_only_select(p: QuestParametersModel, conditions: Seq<QsdCondition>, clock: QuestClock,
    values: Seq<Seq<i32>>, n: nat)
    ensures
        spec_conditions(p, conditions, clock, values, n).0 == (QuestParametersModel {
            selected_quest_index: spec_conditions(p, conditions, clock, values, n).0.selected_quest_index, ..p }),
    decreases n,
{
    if n > 0 {
        law_conditions_only_select(p, conditions, clock, values, (n - 1) as nat);
    }
}

proof fn lemma_conditions_prefix(p: QuestParametersModel, conditions: Seq<QsdCondition>, clock: QuestClock,
    a: Seq<Seq<i32>>, b: Seq<Seq<i32>>, n: nat)
    requires
        n <= a.len(), n <= b.len(),
        forall|k: int| 0 <= k < n ==> a[k] == b[k],
    ensures
        spec_conditions(p, conditions, clock, a, n) == spec_conditions(p, conditions, clock, b, n),
    decreases n,
{
    if n > 0 {
        lemma_conditions_prefix(p, conditions, clock, a, b, (n - 1) as nat);
    }
}

proof fn lemma_conditions_stay_failed(p: QuestParametersModel, conditions: Seq<QsdCondition>, clock: QuestClock,
    values: Seq<Seq<i32>>, i: nat, n: nat)
    requires
        i <= n,
        !spec_conditions(p, conditions, clock, values, i).1,
    ensures
        spec_conditions(p, conditions, clock, values, n) == spec_conditions(p, conditions, clock, values, i),
    decreases n - i,
{
    if i < n {
        lemma_conditions_stay_failed(p, conditions, clock, values, i, (n - 1) as nat);
    }
}

fn check_quest_variables(quest_parameters: &QuestParameters, world_ticks: u64, vars: &Vec<QsdConditionQuestVariable>) -> (result: bool)
    ensures
        result == forall|i: int| 0 <= i < vars@.len() ==>
            (#[trigger] quest_variable_value(quest_parameters@, world_ticks, vars@[i].variable_type, vars@[i].variable_id) matches Some(v)
                && quest_compare(vars@[i].operator, v, vars@[i].value as int)),
{
    let mut i: usize = 0;
    while i < vars.len()
        invariant
            i <= vars.len(),
            forall|k: int| 0 <= k < i ==>
                (#[trigger] quest_variable_value(quest_parameters@, world_ticks, vars@[k].variable_type, vars@[k].variable_id) matches Some(v)
                    && quest_compare(vars@[k].operator, v, vars@[k].value as int)),
        decreases vars.len() - i,
    {
        let var = vars[i];
        if !quest_condition_quest_variable(quest_parameters, world_ticks, var.variable_type, var.variable_id, var.operator, var.value) {
            return false;
        }
        i += 1;
    }
    true
}

/// Condition "ability values": each ability, read from the game, compares
/// with its value; stops at the first that does not. Returns, with the
/// answer, the values the game gives the abilities of every entry.
pub fn quest_condition_ability_values<W: QuestData>(world: &W, quest_parameters: &QuestParameters,
    entries: &Vec<(AbilityType, QsdConditionOperator, i32)>) -> (result: (bool, Ghost<Seq<i32>>))
    ensures
        result.1@ == condition_values(*world, quest_parameters.source@, QsdCondition::AbilityValue(*entries)),
        result.0 == abilities_compare(entries@, result.1@),
{
    let ghost mut values: Seq<i32> = Seq::empty();
    let mut ok = true;
    let mut i: usize = 0;
    while i < entries.len() && ok
        invariant
            i <= entries.len(),
            values.len() == i,
            forall|k: int| 0 <= k < i ==> #[trigger] values[k] == world.ability_value_of(quest_parameters.source@, entries@[k].0),
            ok == abilities_compare(entries@.take(i as int), values),
        decreases entries.len() - i,
    {
        let (ability_type, operator, compare_value) = entries[i];
        let current = world.ability_value(&quest_parameters.source, ability_type);
        let holds = quest_condition_operator(operator, current as i64, compare_value as i64);
        proof {
            let before = values;
            values = values.push(current);
            assert forall|k: int| 0 <= k < i implies #[trigger] entries@.take(i as int + 1)[k] == entries@.take(i as int)[k] by {}
            if ok {
                assert(abilities_compare(entries@.take(i as int + 1), values) == holds) by {
                    if holds {
                        assert forall|k: int| 0 <= k < entries@.take(i as int + 1).len() implies k < values.len()
                            && quest_compare(#[trigger] entries@.take(i as int + 1)[k].1, values[k] as int, entries@.take(i as int + 1)[k].2 as int) by {
                            if k < i {
                                assert(entries@.take(i as int)[k] == entries@.take(i as int + 1)[k]);
                                assert(values[k] == before[k]);
                            }
                        }
                    } else {
                        assert(entries@.take(i as int + 1)[i as int] == entries@[i as int]);
                    }
                }
            }
        }
        ok = holds;
        i += 1;
    }
    let ghost full = values + Seq::new((entries@.len() - i) as nat,
        |k: int| world.ability_value_of(quest_parameters.source@, entries@[i + k].0));
    proof {
        assert(full =~= condition_values(*world, quest_parameters.source@, QsdCondition::AbilityValue(*entries))) by {
            assert forall|k: int| 0 <= k < entries@.len() implies #[trigger] full[k]
                == world.ability_value_of(quest_parameters.source@, entries@[k].0) by {
                if k < i { assert(full[k] == values[k]); }
            }
        }
        if ok {
            assert(entries@.take(i as int) =~= entries@);
            assert forall|k: int| 0 <= k < entries@.len() implies k < full.len()
                && quest_compare(#[trigger] entries@[k].1, full[k] as int, entries@[k].2 as int) by {
                assert(entries@.take(i as int)[k] == entries@[k]);
                assert(full[k] == values[k]);
            }
        } else {
            let j = choose|j: int| 0 <= j < entries@.take(i as int).len() && !(j < values.len()
                && quest_compare(#[trigger] entries@.take(i as int)[j].1, values[j] as int, entries@.take(i as int)[j].2 as int));
            assert(entries@.take(i as int)[j] == entries@[j]);
            assert(full[j] == values[j]);
        }
    }
    (ok, Ghost(full))
}

/// Checks one condition of a quest trigger. Returns whether it holds and
/// the ability values read for it.
pub fn quest_check_condition<W: QuestData>(world: &W, quest_parameters: &mut QuestParameters, clock: &QuestClock,
    condition: &QsdCondition) -> (result: (bool, Ghost<Seq<i32>>))
    requires
        clock.wf(),
        old(quest_parameters).wf(),
    ensures
        result.1@ == condition_values(*world, old(quest_parameters).source@, *condition),
        (final(quest_parameters)@, result.0) == spec_condition(old(quest_parameters)@, *condition, *clock, result.1@),
        final(quest_parameters).source == old(quest_parameters).source,
{
    match condition {
        QsdCondition::SelectQuest(quest_id) => (quest_condition_select_quest(quest_parameters, *quest_id), Ghost(Seq::empty())),
        QsdCondition::QuestSwitch(switch_id, value) =>
            (quest_condition_quest_switch(quest_parameters, *switch_id, *value), Ghost(Seq::empty())),
        QsdCondition::QuestVariable(vars) => (check_quest_variables(quest_parameters, clock.world_ticks, vars), Ghost(Seq::empty())),
        QsdCondition::WorldTime(start, end) => (quest_condition_world_time(clock.world_time, *start, *end), Ghost(Seq::empty())),
        QsdCondition::MonthDayTime(month_day, start, end) =>
            (quest_condition_month_day_time(clock.local_time, *month_day, *start, *end), Ghost(Seq::empty())),
        QsdCondition::WeekDayTime(week_day, start, end) =>
            (quest_condition_week_day_time(clock.local_time, *week_day, *start, *end), Ghost(Seq::empty())),
        QsdCondition::QuestItems(items) => (quest_condition_quest_items(quest_parameters, items), Ghost(Seq::empty())),
        QsdCondition::AbilityValue(entries) => quest_condition_ability_values(world, quest_parameters, entries),
        QsdCondition::Position(within) => (*within, Ghost(Seq::empty())),
        QsdCondition::Other => (false, Ghost(Seq::empty())),
    }
}

/// Checks the conditions of a quest trigger in order; a "select quest"
/// condition changes the selected quest for the ones after it. The
/// conditions mean what `spec_condition` says, for the ability values the
/// game gives the entity.
pub fn quest_trigger_check_conditions<W: QuestData>(world: &W, quest_parameters: &mut QuestParameters, clock: &QuestClock,
    trigger: &QuestTrigger) -> (result: bool)
    requires
        clock.wf(),
        old(quest_parameters).wf(),
    ensures
        (final(quest_parameters)@, result) == spec_conditions(old(quest_parameters)@, trigger.conditions@, *clock,
            conditions_values(*world, old(quest_parameters).source@, trigger.conditions@), trigger.conditions@.len()),
        final(quest_parameters).source == old(quest_parameters).source,
{
    let ghost n = trigger.conditions@.len();
    let ghost all = conditions_values(*world, old(quest_parameters).source@, trigger.conditions@);
    let ghost mut values: Seq<Seq<i32>> = Seq::empty();
    let mut ok = true;
    let mut i: usize = 0;
    while i < trigger.conditions.len() && ok
        invariant
            i <= trigger.conditions.len(),
            n == trigger.conditions@.len(),
            all == conditions_values(*world, old(quest_parameters).source@, trigger.conditions@),
            clock.wf(),
            quest_parameters.wf(),
            values.len() == i,
            forall|k: int| 0 <= k < i ==> #[trigger] values[k] == all[k],
            (quest_parameters@, ok) == spec_conditions(old(quest_parameters)@, trigger.conditions@, *clock, values, i as nat),
            quest_parameters.source == old(quest_parameters).source,
        decreases trigger.conditions.len() - i,
    {
        let ghost before = values;
        let (holds, read) = quest_check_condition(world, quest_parameters, clock, &trigger.conditions[i]);
        proof {
            values = values.push(read@);
            lemma_conditions_prefix(old(quest_parameters)@, trigger.conditions@, *clock, before, values, i as nat);
            assert(values[i as int] == all[i as int]);
        }
        ok = holds;
        i += 1;
    }
    proof {
        lemma_conditions_prefix(old(quest_parameters)@, trigger.conditions@, *clock, values, all, i as nat);
        if !ok {
            lemma_conditions_stay_failed(old(quest_parameters)@, trigger.conditions@, *clock, all, i as nat, n);
        }
        assert(spec_conditions(old(quest_parameters)@, trigger.conditions@, *clock, all, n) == (quest_parameters@, ok));
    }
    ok
}

/// An ability value reward list applied in order to the first `n` entries.
pub open spec fn spec_ability_rewards(source: QuestSourceModel, values: Seq<(AbilityType, QsdRewardOperator, i32)>, n: nat) -> QuestSourceModel
    decreases n,
{
    if n == 0 {
        source
    } else {
        let s = spec_ability_rewards(source, values, (n - 1) as nat);
        let (ability_type, operator, value) = values[n - 1];
        match operator {
            QsdRewardOperator::Assign => spec_set_ability_value(s, ability_type, value).0,
            QsdRewardOperator::Add => spec_add_ability_value(s, ability_type, value).0,
            QsdRewardOperator::Subtract => spec_add_ability_value(s, ability_type, (-value) as i32).0,
            QsdRewardOperator::Zero => spec_set_ability_value(s, ability_type, 0).0,
            QsdRewardOperator::One => spec_set_ability_value(s, ability_type, 1).0,
        }
    }
}

/// Amounts of add and subtract rewards stay clear of `i32::MIN`, whose
/// magnitude does not fit an `i32`.
pub open spec fn ability_reward_values_in_range(values: Seq<(AbilityType, QsdRewardOperator, i32)>) -> bool {
    forall|i: int| 0 <= i < values.len() ==> (#[trigger] values[i]).2 != i32::MIN
}

/// What the client is told of the first `n` entries of an ability value
/// reward list: each change that took, in order.
pub open spec fn spec_ability_updates(source: QuestSourceModel, values: Seq<(AbilityType, QsdRewardOperator, i32)>, n: nat)
    -> Seq<AbilityUpdate>
    decreases n,
{
    if n == 0 {
        Seq::empty()
    } else {
        let s = spec_ability_rewards(source, values, (n - 1) as nat);
        let before = spec_ability_updates(source, values, (n - 1) as nat);
        let (ability_type, operator, value) = values[n - 1];
        let (took, update) = match operator {
            QsdRewardOperator::Assign =>
                (spec_set_ability_value(s, ability_type, value).1, AbilityUpdate::RewardSet(ability_type, value)),
            QsdRewardOperator::Add =>
                (spec_add_ability_value(s, ability_type, value).1, AbilityUpdate::RewardAdd(ability_type, value)),
            QsdRewardOperator::Subtract => (spec_add_ability_value(s, ability_type, (-value) as i32).1,
                AbilityUpdate::RewardAdd(ability_type, (-value) as i32)),
            QsdRewardOperator::Zero => (spec_set_ability_value(s, ability_type, 0).1, AbilityUpdate::RewardSet(ability_type, 0)),
            QsdRewardOperator::One => (spec_set_ability_value(s, ability_type, 1).1, AbilityUpdate::RewardSet(ability_type, 1)),
        };
        if took { before.push(update) } else { before }
    }
}

fn apply_ability_rewards(source: &mut QuestSource, values: &Vec<(AbilityType, QsdRewardOperator, i32)>)
    -> (updates: Vec<AbilityUpdate>)
    requires
        old(source).wf(),
        ability_reward_values_in_range(values@),
    ensures
        final(source).wf(),
        final(source)@ == spec_ability_rewards(old(source)@, values@, values@.len()),
        updates@ == spec_ability_updates(old(source)@, values@, values@.len()),
{
    let mut updates: Vec<AbilityUpdate> = Vec::new();
    let mut i: usize = 0;
    while i < values.len()
        invariant
            i <= values.len(),
            source.wf(),
            ability_reward_values_in_range(values@),
            source@ == spec_ability_rewards(old(source)@, values@, i as nat),
            updates@ == spec_ability_updates(old(source)@, values@, i as nat),
        decreases values.len() - i,
    {
        let (ability_type, operator, value) = values[i];
        assert(values@[i as int].2 != i32::MIN);
        let (took, update) = match operator {
            QsdRewardOperator::Assign =>
                (quest_reward_set_ability_value(source, ability_type, value), AbilityUpdate::RewardSet(ability_type, value)),
            QsdRewardOperator::Add =>
                (quest_reward_add_ability_value(source, ability_type, value), AbilityUpdate::RewardAdd(ability_type, value)),
            QsdRewardOperator::Subtract =>
                (quest_reward_add_ability_value(source, ability_type, -value), AbilityUpdate::RewardAdd(ability_type, -value)),
            QsdRewardOperator::Zero =>
                (quest_reward_set_ability_value(source, ability_type, 0), AbilityUpdate::RewardSet(ability_type, 0)),
            QsdRewardOperator::One =>
                (quest_reward_set_ability_value(source, ability_type, 1), AbilityUpdate::RewardSet(ability_type, 1)),
        };
        if took {
            updates.push(update);
        }
        i += 1;
    }
    updates
}

/// The quest actions that start a quest, and so read its time limit.
pub open spec fn action_starts_quest(action: QsdRewardQuestAction) -> bool {
    matches!(action, QsdRewardQuestAction::Add(_) | QsdRewardQuestAction::ChangeSelectedIdResetData(_))
}

/// What chance and the world's skill lists gave one reward: a draw from
/// `0..400`, and whether the skill it names was learned.
pub struct RewardOutcome {
    pub roll: i32,
    pub skill_learned: bool,
}

pub open spec fn no_outcome() -> RewardOutcome {
    RewardOutcome { roll: 0, skill_learned: false }
}

/// The quest a quest action starts, if it starts one.
pub open spec fn started_quest(action: QsdRewardQuestAction) -> Option<usize> {
    match action {
        QsdRewardQuestAction::Add(id) => Some(id),
        QsdRewardQuestAction::ChangeSelectedIdResetData(id) => Some(id),
        _ => None,
    }
}

/// The charm and fame a reward equation reads (zero for what the entity
/// lacks).
pub open spec fn source_charm(source: QuestSourceModel) -> i32 {
    match source.basic_stats { Some(bs) => bs.charm as i32, None => 0 }
}

pub open spec fn source_fame(source: QuestSourceModel) -> i32 {
    match source.character_info { Some(ci) => ci.fame as i32, None => 0 }
}

/// The value the game data's reward equation gives, for the entity and
/// clock the reward reads.
pub open spec fn equation_value<W: QuestData>(world: W, clock: QuestClock, p: QuestParametersModel, equation_id: usize,
    base_reward_value: i32, dup_count: i32) -> i32
{
    world.reward_value_of(equation_id, base_reward_value, dup_count, p.source.level as i32, source_charm(p.source),
        source_fame(p.source), clock.reward_rate)
}

/// The repeat counter a calculated money reward reads (zero when there is
/// none).
pub open spec fn money_dup_count(p: QuestParametersModel) -> i32 {
    match spec_money_dup_count_var(p) { Some(v) => v as i32, None => 0 }
}

/// The meaning of one reward, with what the game data gives and what
/// chance gave it. A quest whose expiry would pass the end of the tick
/// counter is not started.
pub open spec fn spec_reward<W: QuestData>(world: W, p: QuestParametersModel, reward: QsdReward, clock: QuestClock,
    o: RewardOutcome) -> (QuestParametersModel, bool)
{
    match reward {
        QsdReward::Quest(action) => {
            let time_limit = match started_quest(action) { Some(id) => world.time_limit_of(id), None => None };
            if action_starts_quest(action) && (time_limit matches Some(t) && clock.world_ticks + t > u64::MAX) {
                (p, false)
            } else {
                spec_quest_action(p, action, spec_quest_expire_time(clock.world_ticks, time_limit))
            }
        },
        QsdReward::AbilityValue(values) => (QuestParametersModel {
            source: spec_ability_rewards(p.source, values@, values@.len()),
            ability_updates: p.ability_updates + spec_ability_updates(p.source, values@, values@.len()),
            ..p }, true),
        QsdReward::SetQuestSwitch(switch_id, value) => spec_set_quest_switch(p, switch_id, value),
        QsdReward::CalculatedMoney(equation_id, base) =>
            (spec_calculated_money(p, equation_value(world, clock, p, equation_id, base, money_dup_count(p))), true),
        QsdReward::CalculatedExperiencePoints(equation_id, base) => (QuestParametersModel {
            reward_xp: p.reward_xp.push(equation_value(world, clock, p, equation_id, base, 0) as u64), ..p }, true),
        QsdReward::AddItem(reference, quantity) => spec_add_item(p, reference, world.new_item_of(reference, quantity as u32)),
        QsdReward::CalculatedItem(equation_id, base, reward_item, gem) => {
            let value = equation_value(world, clock, p, equation_id, base, 0);
            let stack = if value > 0 { world.new_item_of(reward_item, value as u32) } else { None };
            let (rare_type, quality) = world.rare_of(reward_item);
            (spec_add_to_inventory(p, calculated_item(reward_item, gem, value, stack, world.new_equipment_of(reward_item),
                rare_type, quality, o.roll)), true)
        },
        QsdReward::AddSkill(skill_id) => (p, skill_id as u16 != 0 && o.skill_learned),
        QsdReward::Teleport(zone_id) =>
            (QuestParametersModel { teleport_zones: p.teleport_zones.push(zone_id as u16), ..p }, true),
        QsdReward::CallLuaFunction => (p, true),
        QsdReward::Trigger(name) => (QuestParametersModel { next_trigger_name: Some(name@), ..p }, true),
        QsdReward::Other => (p, false),
    }
}

/// The rewards a trigger may carry without panicking the server: a teleport
/// names a zone (zero names none).
pub open spec fn reward_in_range(reward: QsdReward) -> bool {
    &&& reward matches QsdReward::AbilityValue(values) ==> ability_reward_values_in_range(values@)
    &&& reward matches QsdReward::Teleport(zone_id) ==> zone_id as u16 != 0
}

/// The first `n` rewards applied in order, stopping at the first that fails.
pub open spec fn spec_rewards<W: QuestData>(world: W, p: QuestParametersModel, rewards: Seq<QsdReward>, clock: QuestClock,
    outcomes: Seq<RewardOutcome>, n: nat) -> (QuestParametersModel, bool)
    decreases n,
{
    if n == 0 {
        (p, true)
    } else {
        let (q, ok) = spec_rewards(world, p, rewards, clock, outcomes, (n - 1) as nat);
        if !ok { (q, false) } else { spec_reward(world, q, rewards[n - 1], clock, outcomes[n - 1]) }
    }
}

/// Outcomes as chance can give them: every draw lies in `0..400`.
pub open spec fn outcomes_ok(outcomes: Seq<RewardOutcome>) -> bool {
    forall|i: int| 0 <= i < outcomes.len() ==> 0 <= (#[trigger] outcomes[i]).roll < 400
}

proof fn lemma_rewards_prefix<W: QuestData>(world: W, p: QuestParametersModel, rewards: Seq<QsdReward>, clock: QuestClock,
    a: Seq<RewardOutcome>, b: Seq<RewardOutcome>, n: nat)
    requires
        n <= a.len(), n <= b.len(),
        forall|k: int| 0 <= k < n ==> a[k] == b[k],
    ensures
        spec_rewards(world, p, rewards, clock, a, n) == spec_rewards(world, p, rewards, clock, b, n),
    decreases n,
{
    if n > 0 {
        lemma_rewards_prefix(world, p, rewards, clock, a, b, (n - 1) as nat);
    }
}

proof fn lemma_rewards_stay_failed<W: QuestData>(world: W, p: QuestParametersModel, rewards: Seq<QsdReward>, clock: QuestClock,
    a: Seq<RewardOutcome>, i: nat, n: nat)
    requires
        i <= n,
        !spec_rewards(world, p, rewards, clock, a, i).1,
    ensures
        spec_rewards(world, p, rewards, clock, a, n) == spec_rewards(world, p, rewards, clock, a, i),
    decreases n - i,
{
    if i < n {
        lemma_rewards_stay_failed(world, p, rewards, clock, a, i, (n - 1) as nat);
    }
}

/// Reward "add skill": the entity learns skill `skill_id` (cut to 16 bits;
/// zero names no skill and fails) when the world says it did. Returns
/// whether it did, with what the world said.
pub fn quest_reward_add_skill<W: QuestData>(world: &W, quest_parameters: &QuestParameters, skill_id: usize)
    -> (result: (bool, Ghost<bool>))
    ensures
        result.0 == (skill_id as u16 != 0 && result.1@),
{
    let id: u16 = skill_id as u16;
    if id == 0 {
        (false, Ghost(false))
    } else {
        let learned = world.learn_skill(&quest_parameters.source, id);
        (learned, Ghost(learned))
    }
}

/// Reward "teleport": records the zone (cut to 16 bits) for the caller,
/// which moves the entity there; always succeeds.
pub fn quest_reward_teleport(quest_parameters: &mut QuestParameters, zone_id: usize) -> (result: bool)
    requires
        zone_id as u16 != 0,
    ensures
        result,
        final(quest_parameters)@ == (QuestParametersModel {
            teleport_zones: old(quest_parameters)@.teleport_zones.push(zone_id as u16), ..old(quest_parameters)@ }),
        final(quest_parameters).source == old(quest_parameters).source,
{
    let zone: u16 = zone_id as u16;
    quest_parameters.teleport_zones.push(zone);
    true
}

/// The value of a reward equation for the entity: its base value and
/// repeat counter, the entity's level, charm and fame (zero for what it
/// lacks) and the clock's reward rate go to the game data.
fn reward_equation_value<W: QuestData>(world: &W, clock: &QuestClock, quest_parameters: &QuestParameters,
    equation_id: usize, base_reward_value: i32, dup_count: i32) -> (value: i32)
    ensures
        value == equation_value(*world, *clock, quest_parameters@, equation_id, base_reward_value, dup_count),
{
    let charm = match quest_parameters.source.basic_stats {
        Some(bs) => bs.charm as i32,
        None => 0,
    };
    let fame = match quest_parameters.source.character_info {
        Some(ci) => ci.fame as i32,
        None => 0,
    };
    world.calculate_reward_value(equation_id, base_reward_value, dup_count,
        quest_parameters.source.level as i32, charm, fame, clock.reward_rate)
}

fn quest_apply_reward<W: QuestData>(world: &W, clock: &QuestClock, quest_parameters: &mut QuestParameters, reward: &QsdReward)
    -> (result: (bool, Ghost<RewardOutcome>))
    requires
        old(quest_parameters).wf(),
        reward_in_range(*reward),
    ensures
        final(quest_parameters).wf(),
        0 <= result.1@.roll < 400,
        (final(quest_parameters)@, result.0) == spec_reward(*world, old(quest_parameters)@, *reward, *clock, result.1@),
{
    match reward {
        QsdReward::Quest(action) => {
            let action = *action;
            let quest_id = match action {
                QsdRewardQuestAction::Add(id) => id,
                QsdRewardQuestAction::ChangeSelectedIdResetData(id) => id,
                _ => 0,
            };
            let starts = match action {
                QsdRewardQuestAction::Add(_) | QsdRewardQuestAction::ChangeSelectedIdResetData(_) => true,
                _ => false,
            };
            let time_limit = if starts { world.quest_time_limit(quest_id) } else { None };
            if let Some(t) = time_limit {
                if clock.world_ticks.checked_add(t).is_none() {
                    return (false, Ghost(no_outcome()));
                }
            }
            let ok = quest_reward_quest_action(quest_parameters, action, clock.world_ticks, time_limit);
            (ok, Ghost(no_outcome()))
        },
        QsdReward::AbilityValue(values) => {
            let mut updates = apply_ability_rewards(&mut quest_parameters.source, values);
            quest_parameters.ability_updates.append(&mut updates);
            (true, Ghost(no_outcome()))
        },
        QsdReward::SetQuestSwitch(switch_id, value) => {
            let ok = quest_reward_set_quest_switch(quest_parameters, *switch_id, *value);
            (ok, Ghost(no_outcome()))
        },
        QsdReward::CalculatedMoney(equation_id, base_reward_value) => {
            let dup_count = match get_quest_calculated_money_dup_count_var(quest_parameters) {
                Some(v) => v as i32,
                None => 0,
            };
            let reward_value = reward_equation_value(world, clock, quest_parameters, *equation_id, *base_reward_value, dup_count);
            quest_reward_calculated_money(quest_parameters, reward_value);
            (true, Ghost(no_outcome()))
        },
        QsdReward::CalculatedExperiencePoints(equation_id, base_reward_value) => {
            let reward_value = reward_equation_value(world, clock, quest_parameters, *equation_id, *base_reward_value, 0);
            quest_reward_calculated_experience_points(quest_parameters, reward_value);
            (true, Ghost(no_outcome()))
        },
        QsdReward::AddItem(reference, quantity) => {
            let item = world.new_item(*reference, *quantity as u32);
            let ok = quest_reward_add_item(quest_parameters, *reference, item);
            (ok, Ghost(no_outcome()))
        },
        QsdReward::CalculatedItem(equation_id, base_reward_value, reward_item, gem) => {
            let reward_item = *reward_item;
            let gem = *gem;
            let ghost p0 = quest_parameters@;
            let ghost value = equation_value(*world, *clock, p0, *equation_id, *base_reward_value, 0);
            let ghost stack_of = if value > 0 { world.new_item_of(reward_item, value as u32) } else { None };
            let ghost rare = world.rare_of(reward_item);
            if item_type_is_stackable(reward_item.item_type) {
                let reward_value = reward_equation_value(world, clock, quest_parameters, *equation_id, *base_reward_value, 0);
                let stack = if reward_value > 0 { world.new_item(reward_item, reward_value as u32) } else { None };
                proof {
                    assert(calculated_item(reward_item, gem, value, stack_of, world.new_equipment_of(reward_item), rare.0, rare.1, 0)
                        == stack);
                }
                quest_reward_calculated_item(quest_parameters, stack);
                (true, Ghost(no_outcome()))
            } else {
                let equipment = world.new_equipment_item(reward_item);
                match equipment {
                    Some(base) => {
                        let (rare_type, quality) = world.rare_type_and_quality(reward_item);
                        let roll = if needs_socket_roll(base, gem, rare_type) { random_in_range(0, 400) } else { 0 };
                        let settled = settle_reward_equipment(base, gem, rare_type, quality, roll);
                        let ghost o = RewardOutcome { roll, ..no_outcome() };
                        proof {
                            assert(calculated_item(reward_item, gem, value, stack_of, equipment, rare_type, quality, roll)
                                == Some(Item::Equipment(settled)));
                        }
                        quest_reward_calculated_item(quest_parameters, Some(Item::Equipment(settled)));
                        (true, Ghost(o))
                    },
                    None => {
                        proof {
                            assert(calculated_item(reward_item, gem, value, stack_of, equipment, rare.0, rare.1, 0) is None);
                        }
                        quest_reward_calculated_item(quest_parameters, None);
                        (true, Ghost(no_outcome()))
                    },
                }
            }
        },
        QsdReward::AddSkill(skill_id) => {
            let (learned, o) = quest_reward_add_skill(world, quest_parameters, *skill_id);
            (learned, Ghost(RewardOutcome { skill_learned: o@, ..no_outcome() }))
        },
        QsdReward::Teleport(zone_id) => (quest_reward_teleport(quest_parameters, *zone_id), Ghost(no_outcome())),
        QsdReward::CallLuaFunction => (true, Ghost(no_outcome())),
        QsdReward::Trigger(name) => {
            quest_parameters.next_trigger_name = Some(name.clone());
            (true, Ghost(no_outcome()))
        },
        QsdReward::Other => (false, Ghost(no_outcome())),
    }
}

/// Applies the rewards of a quest trigger in order, stopping at the first
/// that fails. The rewards mean what `spec_reward` says, for the outcomes
/// that chance and the world's skill lists gave.
pub fn quest_trigger_apply_rewards<W: QuestData>(world: &W, clock: &QuestClock, quest_parameters: &mut QuestParameters, trigger: &QuestTrigger) -> (result: bool)
    requires
        old(quest_parameters).wf(),
        forall|i: int| 0 <= i < trigger.rewards@.len() ==> reward_in_range(#[trigger] trigger.rewards@[i]),
    ensures
        final(quest_parameters).wf(),
        exists|outcomes: Seq<RewardOutcome>|
            outcomes.len() == trigger.rewards@.len() && outcomes_ok(outcomes)
            && (final(quest_parameters)@, result) == #[trigger] spec_rewards(*world, old(quest_parameters)@, trigger.rewards@, *clock,
                outcomes, trigger.rewards@.len()),
{
    let ghost mut outcomes: Seq<RewardOutcome> = Seq::empty();
    let ghost n = trigger.rewards@.len();
    let mut i: usize = 0;
    while i < trigger.rewards.len()
        invariant
            i <= trigger.rewards.len(),
            n == trigger.rewards@.len(),
            quest_parameters.wf(),
            forall|k: int| 0 <= k < trigger.rewards@.len() ==> reward_in_range(#[trigger] trigger.rewards@[k]),
            outcomes.len() == i,
            outcomes_ok(outcomes),
            (quest_parameters@, true) == spec_rewards(*world, old(quest_parameters)@, trigger.rewards@, *clock, outcomes, i as nat),
        decreases trigger.rewards.len() - i,
    {
        let ghost before = outcomes;
        let (ok, step) = quest_apply_reward(world, clock, quest_parameters, &trigger.rewards[i]);
        proof {
            outcomes = outcomes.push(step@);
            lemma_rewards_prefix(*world, old(quest_parameters)@, trigger.rewards@, *clock, before, outcomes, i as nat);
        }
        if !ok {
            proof {
                let full = outcomes + Seq::new((n - i - 1) as nat, |k: int| no_outcome());
                assert(outcomes_ok(full)) by {
                    assert forall|j: int| 0 <= j < full.len() implies 0 <= (#[trigger] full[j]).roll < 400 by {
                        if j < outcomes.len() { assert(full[j] == outcomes[j]); }
                    }
                }
                lemma_rewards_prefix(*world, old(quest_parameters)@, trigger.rewards@, *clock, outcomes, full, (i + 1) as nat);
                lemma_rewards_stay_failed(*world, old(quest_parameters)@, trigger.rewards@, *clock, full, (i + 1) as nat, n);
                assert(spec_rewards(*world, old(quest_parameters)@, trigger.rewards@, *clock, full, n) == (quest_parameters@, false));
            }
            return false;
        }
        i += 1;
    }
    assert(spec_rewards(*world, old(quest_parameters)@, trigger.rewards@, *clock, outcomes, n) == (quest_parameters@, true));
    true
}

/// The meaning of running a trigger: its rewards apply only when all its
/// conditions hold, for what the game data gives and what chance and the
/// world's skill lists gave.
pub open spec fn spec_trigger<W: QuestData>(world: W, p: QuestParametersModel, trigger: QuestTrigger, clock: QuestClock,
    outcomes: Seq<RewardOutcome>) -> (QuestParametersModel, bool) {
    let (after_conditions, conditions_hold) = spec_conditions(p, trigger.conditions@, clock,
        conditions_values(world, p.source, trigger.conditions@), trigger.conditions@.len());
    if !conditions_hold {
        (after_conditions, false)
    } else {
        spec_rewards(world, after_conditions, trigger.rewards@, clock, outcomes, trigger.rewards@.len())
    }
}

/// Runs one trigger of a chain: its rewards are applied only when all its
/// conditions hold; true when both succeeded.
pub fn quest_run_trigger<W: QuestData>(world: &W, clock: &QuestClock, quest_parameters: &mut QuestParameters, trigger: &QuestTrigger) -> (result: bool)
    requires
        old(quest_parameters).wf(),
        clock.wf(),
        forall|i: int| 0 <= i < trigger.rewards@.len() ==> reward_in_range(#[trigger] trigger.rewards@[i]),
    ensures
        final(quest_parameters).wf(),
        exists|outcomes: Seq<RewardOutcome>|
            outcomes.len() == trigger.rewards@.len() && outcomes_ok(outcomes)
            && (final(quest_parameters)@, result) == #[trigger] spec_trigger(*world, old(quest_parameters)@, *trigger, *clock, outcomes),
{
    let ghost p0 = quest_parameters@;
    let hold = quest_trigger_check_conditions(world, quest_parameters, clock, trigger);
    let ghost p1 = quest_parameters@;
    if !hold {
        proof {
            let outcomes = Seq::new(trigger.rewards@.len(), |i: int| no_outcome());
            assert(outcomes_ok(outcomes));
            assert(spec_trigger(*world, p0, *trigger, *clock, outcomes) == (p1, false));
        }
        return false;
    }
    let result = quest_trigger_apply_rewards(world, clock, quest_parameters, trigger);
    proof {
        let outcomes = choose|outcomes: Seq<RewardOutcome>| outcomes.len() == trigger.rewards@.len() && outcomes_ok(outcomes)
            && (quest_parameters@, result) == #[trigger] spec_rewards(*world, p1, trigger.rewards@, *clock, outcomes, trigger.rewards@.len());
        assert(spec_trigger(*world, p0, *trigger, *clock, outcomes) == (quest_parameters@, result));
    }
    result
}

/// The name of the trigger to try after a trigger of a chain: the one a
/// reward asked for (which is then cleared), else the trigger's own next.
pub fn quest_next_trigger_name(quest_parameters: &mut QuestParameters, trigger: &QuestTrigger) -> (result: Option<String>)
    ensures
        match old(quest_parameters)@.next_trigger_name {
            Some(name) => result matches Some(r) && r@ == name,
            None => match trigger.next_trigger_name {
                Some(name) => result matches Some(r) && r@ == name@,
                None => result is None,
            },
        },
        final(quest_parameters)@ == (QuestParametersModel { next_trigger_name: None, ..old(quest_parameters)@ }),
{
    match quest_parameters.next_trigger_name.take() {
        Some(name) => Some(name),
        None => match &trigger.next_trigger_name {
            Some(name) => Some(name.clone()),
            None => None,
        },
    }
}

} // verus!

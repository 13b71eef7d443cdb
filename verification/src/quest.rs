use vstd::prelude::*;
use crate::operators::{QsdConditionOperator, quest_compare, quest_condition_operator};
use crate::rewards::{AbilityUpdate, QuestSource, QuestSourceModel};
use crate::stats::{Inventory, Money};
use crate::items::Item;

verus! {

/// A quest the character is working on.
#[derive(Clone, Debug)]
pub struct ActiveQuest {
    pub quest_id: usize,
    pub expire_time: Option<u64>,
    pub variables: Vec<u16>,
    pub switches: Vec<bool>,
    pub items: Vec<Option<Item>>,
}

pub struct ActiveQuestModel {
    pub quest_id: usize,
    pub expire_time: Option<u64>,
    pub variables: Seq<u16>,
    pub switches: Seq<bool>,
    pub items: Seq<Option<Item>>,
}

impl View for ActiveQuest {
    type V = ActiveQuestModel;

    open spec fn view(&self) -> ActiveQuestModel {
        ActiveQuestModel {
            quest_id: self.quest_id,
            expire_time: self.expire_time,
            variables: self.variables@,
            switches: self.switches@,
            items: self.items@,
        }
    }
}

/// The quest progress of a character: its quest slots, global switches and
/// the episode, job, planet and union variables.
#[derive(Clone, Debug)]
pub struct QuestState {
    pub active_quests: Vec<Option<ActiveQuest>>,
    pub quest_switches: Vec<bool>,
    pub episode_variables: Vec<u16>,
    pub job_variables: Vec<u16>,
    pub planet_variables: Vec<u16>,
    pub union_variables: Vec<u16>,
}

pub struct QuestStateModel {
    pub active_quests: Seq<Option<ActiveQuestModel>>,
    pub quest_switches: Seq<bool>,
    pub episode_variables: Seq<u16>,
    pub job_variables: Seq<u16>,
    pub planet_variables: Seq<u16>,
    pub union_variables: Seq<u16>,
}

pub open spec fn quest_slot_view(slot: Option<ActiveQuest>) -> Option<ActiveQuestModel> {
    match slot {
        Some(q) => Some(q@),
        None => None,
    }
}

impl View for QuestState {
    type V = QuestStateModel;

    open spec fn view(&self) -> QuestStateModel {
        QuestStateModel {
            active_quests: self.active_quests@.map_values(|slot: Option<ActiveQuest>| quest_slot_view(slot)),
            quest_switches: self.quest_switches@,
            episode_variables: self.episode_variables@,
            job_variables: self.job_variables@,
            planet_variables: self.planet_variables@,
            union_variables: self.union_variables@,
        }
    }
}

/// Slot `i` holds the quest `quest_id`.
pub open spec fn slot_has_quest(slots: Seq<Option<ActiveQuestModel>>, i: int, quest_id: usize) -> bool {
    &&& 0 <= i < slots.len()
    &&& slots[i] matches Some(q)
    &&& slots[i]->0.quest_id == quest_id
}

impl QuestState {
    /// Index of the first quest slot holding `quest_id`.
    pub fn find_active_quest_index(&self, quest_id: usize) -> (result: Option<usize>)
        ensures
            match result {
                Some(i) => slot_has_quest(self@.active_quests, i as int, quest_id)
                    && forall|j: int| 0 <= j < i ==> !slot_has_quest(self@.active_quests, j, quest_id),
                None => forall|j: int| !slot_has_quest(self@.active_quests, j, quest_id),
            },
    {
        let mut i: usize = 0;
        while i < self.active_quests.len()
            invariant
                i <= self.active_quests.len(),
                forall|j: int| 0 <= j < i ==> !slot_has_quest(self@.active_quests, j, quest_id),
            decreases self.active_quests.len() - i,
        {
            match &self.active_quests[i] {
                Some(q) => {
                    if q.quest_id == quest_id {
                        return Some(i);
                    }
                },
                None => {},
            }
            i += 1;
        }
        None
    }

    /// Puts `quest` into the first empty quest slot and returns that slot;
    /// `None` (and no change) when every slot is taken.
    pub fn try_add_quest(&mut self, quest: ActiveQuest) -> (result: Option<usize>)
        ensures
            match result {
                Some(i) => i < old(self)@.active_quests.len()
                    && old(self)@.active_quests[i as int] is None
                    && (forall|j: int| 0 <= j < i ==> old(self)@.active_quests[j] is Some)
                    && final(self)@ == QuestStateModel {
                        active_quests: old(self)@.active_quests.update(i as int, Some(quest@)),
                        ..old(self)@
                    },
                None => (forall|j: int| 0 <= j < old(self)@.active_quests.len() ==> old(self)@.active_quests[j] is Some)
                    && final(self)@ == old(self)@,
            },
    {
        let mut i: usize = 0;
        while i < self.active_quests.len()
            invariant
                i <= self.active_quests.len(),
                self@ == old(self)@,
                forall|j: int| 0 <= j < i ==> self@.active_quests[j] is Some,
            decreases self.active_quests.len() - i,
        {
            if self.active_quests[i].is_none() {
                let ghost before = self@;
                self.active_quests.set(i, Some(quest));
                assert(self@.active_quests =~= before.active_quests.update(i as int, Some(quest@)));
                return Some(i);
            }
            i += 1;
        }
        None
    }
}

/// Number of variables an active quest keeps.
pub const ACTIVE_QUEST_VARIABLES_COUNT: usize = 10;
/// Number of switches an active quest keeps.
pub const ACTIVE_QUEST_SWITCHES_COUNT: usize = 32;
/// Number of quest item slots an active quest keeps.
pub const ACTIVE_QUEST_ITEMS_COUNT: usize = 6;

/// A freshly started quest: all variables zero, all switches off, no quest
/// items.
pub open spec fn new_active_quest(quest_id: usize, expire_time: Option<u64>) -> ActiveQuestModel {
    ActiveQuestModel {
        quest_id,
        expire_time,
        variables: Seq::new(ACTIVE_QUEST_VARIABLES_COUNT as nat, |i: int| 0u16),
        switches: Seq::new(ACTIVE_QUEST_SWITCHES_COUNT as nat, |i: int| false),
        items: Seq::new(ACTIVE_QUEST_ITEMS_COUNT as nat, |i: int| None::<Item>),
    }
}

impl ActiveQuest {
    pub fn new(quest_id: usize, expire_time: Option<u64>) -> (result: ActiveQuest)
        ensures
            result@ == new_active_quest(quest_id, expire_time),
    {
        let mut variables: Vec<u16> = Vec::new();
        let mut i: usize = 0;
        while i < ACTIVE_QUEST_VARIABLES_COUNT
            invariant
                i <= ACTIVE_QUEST_VARIABLES_COUNT,
                variables@ == Seq::new(i as nat, |k: int| 0u16),
            decreases ACTIVE_QUEST_VARIABLES_COUNT - i,
        {
            variables.push(0);
            i += 1;
            assert(variables@ =~= Seq::new(i as nat, |k: int| 0u16));
        }
        let mut switches: Vec<bool> = Vec::new();
        let mut j: usize = 0;
        while j < ACTIVE_QUEST_SWITCHES_COUNT
            invariant
                j <= ACTIVE_QUEST_SWITCHES_COUNT,
                switches@ == Seq::new(j as nat, |k: int| false),
            decreases ACTIVE_QUEST_SWITCHES_COUNT - j,
        {
            switches.push(false);
            j += 1;
            assert(switches@ =~= Seq::new(j as nat, |k: int| false));
        }
        let mut items: Vec<Option<Item>> = Vec::new();
        let mut k: usize = 0;
        while k < ACTIVE_QUEST_ITEMS_COUNT
            invariant
                k <= ACTIVE_QUEST_ITEMS_COUNT,
                items@ == Seq::new(k as nat, |x: int| None::<Item>),
            decreases ACTIVE_QUEST_ITEMS_COUNT - k,
        {
            items.push(None);
            k += 1;
            assert(items@ =~= Seq::new(k as nat, |x: int| None::<Item>));
        }
        ActiveQuest { quest_id, expire_time, variables, switches, items }
    }
}

/// The state a quest trigger works on: the entity's components, its quest
/// progress, the quest that conditions have selected, and the trigger that
/// a reward asked to run next.
#[derive(Clone, Debug)]
pub struct QuestParameters {
    pub source: QuestSource,
    pub quest_state: Option<QuestState>,
    pub selected_quest_index: Option<usize>,
    pub next_trigger_name: Option<String>,
    /// Experience the rewards granted, in order, for the caller to hand out.
    pub reward_xp: Vec<u64>,
    /// Zones the rewards teleport the entity to, in order, for the caller to
    /// carry out.
    pub teleport_zones: Vec<u16>,
    /// The ability value changes the rewards made, in order, for the caller
    /// to tell the client.
    pub ability_updates: Vec<AbilityUpdate>,
}

pub struct QuestParametersModel {
    pub source: QuestSourceModel,
    pub quest_state: Option<QuestStateModel>,
    pub selected_quest_index: Option<usize>,
    pub next_trigger_name: Option<Seq<char>>,
    pub reward_xp: Seq<u64>,
    pub teleport_zones: Seq<u16>,
    pub ability_updates: Seq<AbilityUpdate>,
}

impl View for QuestParameters {
    type V = QuestParametersModel;

    open spec fn view(&self) -> QuestParametersModel {
        QuestParametersModel {
            source: self.source@,
            quest_state: match self.quest_state { Some(qs) => Some(qs@), None => None },
            selected_quest_index: self.selected_quest_index,
            next_trigger_name: match self.next_trigger_name { Some(n) => Some(n@), None => None },
            reward_xp: self.reward_xp@,
            teleport_zones: self.teleport_zones@,
            ability_updates: self.ability_updates@,
        }
    }
}

impl QuestParameters {
    pub open spec fn wf(self) -> bool {
        self.source.wf()
    }
}

/// The selected active quest, when a quest is selected and its slot is used.
pub open spec fn selected_quest(p: QuestParametersModel) -> Option<ActiveQuestModel> {
    match (p.quest_state, p.selected_quest_index) {
        (Some(qs), Some(i)) => if i < qs.active_quests.len() { qs.active_quests[i as int] } else { None },
        _ => None,
    }
}

/// Condition "select quest": selects the first slot holding `quest_id`;
/// fails, leaving the selection alone, when no slot holds it. It means the
/// same as the reward that selects a quest.
pub fn quest_condition_select_quest(quest_parameters: &mut QuestParameters, quest_id: usize) -> (result: bool)
    ensures
        (final(quest_parameters)@, result) == spec_quest_action(old(quest_parameters)@, QsdRewardQuestAction::Select(quest_id), None),
        final(quest_parameters).source == old(quest_parameters).source,
{
    match &quest_parameters.quest_state {
        Some(quest_state) => {
            let ghost qs0 = quest_state@;
            match quest_state.find_active_quest_index(quest_id) {
                Some(index) => {
                    quest_parameters.selected_quest_index = Some(index);
                    proof {
                        let w = index as int;
                        let c = choose|j: int| slot_has_quest(qs0.active_quests, j, quest_id)
                            && forall|k: int| 0 <= k < j ==> !slot_has_quest(qs0.active_quests, k, quest_id);
                        assert(slot_has_quest(qs0.active_quests, w, quest_id));
                        assert(c == w) by {
                            if c < w { assert(!slot_has_quest(qs0.active_quests, c, quest_id)); }
                            if w < c { assert(!slot_has_quest(qs0.active_quests, w, quest_id)); }
                        }
                    }
                    true
                },
                None => false,
            }
        },
        None => false,
    }
}

/// Condition "quest switch": the global switch `switch_id` exists and is `value`.
pub fn quest_condition_quest_switch(quest_parameters: &QuestParameters, switch_id: usize, value: bool) -> (result: bool)
    ensures
        result == (quest_parameters@.quest_state matches Some(qs)
            && switch_id < qs.quest_switches.len()
            && qs.quest_switches[switch_id as int] == value),
{
    match &quest_parameters.quest_state {
        Some(quest_state) => {
            if switch_id < quest_state.quest_switches.len() {
                quest_state.quest_switches[switch_id] == value
            } else {
                false
            }
        },
        None => false,
    }
}

/// The meaning of the reward that sets a global quest switch.
pub open spec fn spec_set_quest_switch(p: QuestParametersModel, switch_id: usize, value: bool) -> (QuestParametersModel, bool) {
    match p.quest_state {
        Some(qs) => if switch_id < qs.quest_switches.len() {
            (QuestParametersModel {
                quest_state: Some(QuestStateModel { quest_switches: qs.quest_switches.update(switch_id as int, value), ..qs }),
                ..p }, true)
        } else { (p, false) },
        None => (p, false),
    }
}

/// Reward "set quest switch": sets the global switch `switch_id` when it exists.
pub fn quest_reward_set_quest_switch(quest_parameters: &mut QuestParameters, switch_id: usize, value: bool) -> (result: bool)
    ensures
        (final(quest_parameters)@, result) == spec_set_quest_switch(old(quest_parameters)@, switch_id, value),
        final(quest_parameters).source == old(quest_parameters).source,
{
    match quest_parameters.quest_state.take() {
        Some(mut quest_state) => {
            let ok = switch_id < quest_state.quest_switches.len();
            if ok {
                quest_state.quest_switches.set(switch_id, value);
            }
            quest_parameters.quest_state = Some(quest_state);
            ok
        },
        None => false,
    }
}

/// Where a quest variable condition reads its value.
#[derive(Clone, Copy, Debug, PartialEq, Eq, Structural)]
pub enum QsdVariableType {
    Variable,
    Switch,
    Timer,
    Episode,
    Job,
    Planet,
    Union,
}

pub open spec fn seq_u16_at(s: Seq<u16>, i: usize) -> Option<int> {
    if i < s.len() { Some(s[i as int] as int) } else { None }
}

/// The value a quest variable condition compares, or `None` when the
/// variable does not exist. Timers count the ticks left before expiry.
pub open spec fn quest_variable_value(p: QuestParametersModel, world_ticks: u64, variable_type: QsdVariableType, variable_id: usize) -> Option<int> {
    match p.quest_state {
        None => None,
        Some(qs) => match variable_type {
            QsdVariableType::Variable => match selected_quest(p) {
                Some(q) => seq_u16_at(q.variables, variable_id),
                None => None,
            },
            QsdVariableType::Switch => match selected_quest(p) {
                Some(q) => if variable_id < q.switches.len() { Some(if q.switches[variable_id as int] { 1int } else { 0int }) } else { None },
                None => None,
            },
            QsdVariableType::Timer => match selected_quest(p) {
                Some(q) => match q.expire_time {
                    Some(t) => Some((if t >= world_ticks { (t - world_ticks) as u64 } else { 0u64 }) as i32 as int),
                    None => None,
                },
                None => None,
            },
            QsdVariableType::Episode => seq_u16_at(qs.episode_variables, variable_id),
            QsdVariableType::Job => seq_u16_at(qs.job_variables, variable_id),
            QsdVariableType::Planet => seq_u16_at(qs.planet_variables, variable_id),
            QsdVariableType::Union => seq_u16_at(qs.union_variables, variable_id),
        },
    }
}

fn vec_u16_at(v: &Vec<u16>, i: usize) -> (result: Option<i32>)
    ensures
        match result {
            Some(x) => seq_u16_at(v@, i) == Some(x as int),
            None => seq_u16_at(v@, i) is None,
        },
{
    if i < v.len() { Some(v[i] as i32) } else { None }
}

pub(crate) fn selected_active_quest(quest_parameters: &QuestParameters) -> (result: Option<&ActiveQuest>)
    ensures
        match result {
            Some(q) => selected_quest(quest_parameters@) == Some(q@),
            None => selected_quest(quest_parameters@) is None,
        },
{
    match (&quest_parameters.quest_state, quest_parameters.selected_quest_index) {
        (Some(quest_state), Some(index)) => {
            if index < quest_state.active_quests.len() {
                proof {
                    assert(quest_state@.active_quests[index as int] == quest_slot_view(quest_state.active_quests@[index as int]));
                }
                match &quest_state.active_quests[index] {
                    Some(q) => Some(q),
                    None => None,
                }
            } else {
                None
            }
        },
        _ => None,
    }
}

/// Condition "quest variable": the named variable exists and compares to
/// `value` under `operator`.
pub fn quest_condition_quest_variable(
    quest_parameters: &QuestParameters,
    world_ticks: u64,
    variable_type: QsdVariableType,
    variable_id: usize,
    operator: QsdConditionOperator,
    value: i32,
) -> (result: bool)
    ensures
        result == (quest_variable_value(quest_parameters@, world_ticks, variable_type, variable_id) matches Some(v)
            && quest_compare(operator, v, value as int)),
{
    if quest_parameters.quest_state.is_none() {
        return false;
    }
    let quest_state = quest_parameters.quest_state.as_ref().unwrap();
    let active_quest = selected_active_quest(quest_parameters);
    let variable_value: Option<i32> = match variable_type {
        QsdVariableType::Variable => match active_quest {
            Some(q) => vec_u16_at(&q.variables, variable_id),
            None => None,
        },
        QsdVariableType::Switch => match active_quest {
            Some(q) => if variable_id < q.switches.len() { Some(if q.switches[variable_id] { 1i32 } else { 0i32 }) } else { None },
            None => None,
        },
        QsdVariableType::Timer => match active_quest {
            Some(q) => match q.expire_time {
                Some(t) => Some(t.saturating_sub(world_ticks) as i32),
                None => None,
            },
            None => None,
        },
        QsdVariableType::Episode => vec_u16_at(&quest_state.episode_variables, variable_id),
        QsdVariableType::Job => vec_u16_at(&quest_state.job_variables, variable_id),
        QsdVariableType::Planet => vec_u16_at(&quest_state.planet_variables, variable_id),
        QsdVariableType::Union => vec_u16_at(&quest_state.union_variables, variable_id),
    };
    match variable_value {
        Some(v) => quest_condition_operator(operator, v as i64, value as i64),
        None => false,
    }
}

/// When a quest started now expires: `time_limit` ticks from now, or never.
pub open spec fn spec_quest_expire_time(world_ticks: u64, time_limit: Option<u64>) -> Option<u64> {
    match time_limit {
        Some(t) => Some((world_ticks + t) as u64),
        None => None,
    }
}

/// The expiry time of a quest started at `world_ticks` whose data gives it
/// `time_limit` ticks.
pub fn quest_get_expire_time(world_ticks: u64, time_limit: Option<u64>) -> (result: Option<u64>)
    requires
        time_limit matches Some(t) ==> world_ticks + t <= u64::MAX,
    ensures
        result == spec_quest_expire_time(world_ticks, time_limit),
{
    match time_limit {
        Some(t) => Some(world_ticks + t),
        None => None,
    }
}

/// What a quest reward does to the character's quest slots.
#[derive(Clone, Copy, Debug, PartialEq, Eq, Structural)]
pub enum QsdRewardQuestAction {
    RemoveSelected,
    Add(usize),
    ChangeSelectedIdKeepData(usize),
    ChangeSelectedIdResetData(usize),
    Select(usize),
}

/// The meaning of a quest slot reward. `expire_time` is the expiry of the
/// quest that the action names, for the two actions that start one.
pub open spec fn spec_quest_action(p: QuestParametersModel, action: QsdRewardQuestAction, expire_time: Option<u64>) -> (QuestParametersModel, bool) {
    match p.quest_state {
        None => (p, false),
        Some(qs) => match action {
            QsdRewardQuestAction::RemoveSelected => match p.selected_quest_index {
                Some(i) => if i < qs.active_quests.len() {
                    (QuestParametersModel {
                        quest_state: Some(QuestStateModel { active_quests: qs.active_quests.update(i as int, None), ..qs }),
                        ..p }, true)
                } else { (p, false) },
                None => (p, false),
            },
            QsdRewardQuestAction::Add(quest_id) => {
                if exists|j: int| 0 <= j < qs.active_quests.len() && qs.active_quests[j] is None {
                    let i = choose|j: int| 0 <= j < qs.active_quests.len() && qs.active_quests[j] is None
                        && forall|k: int| 0 <= k < j ==> qs.active_quests[k] is Some;
                    (QuestParametersModel {
                        quest_state: Some(QuestStateModel {
                            active_quests: qs.active_quests.update(i, Some(new_active_quest(quest_id, expire_time))),
                            ..qs }),
                        selected_quest_index: if p.selected_quest_index is None { Some(i as usize) } else { p.selected_quest_index },
                        ..p }, true)
                } else {
                    (p, false)
                }
            },
            QsdRewardQuestAction::ChangeSelectedIdKeepData(quest_id) => match p.selected_quest_index {
                Some(i) => if i < qs.active_quests.len() && qs.active_quests[i as int] is Some {
                    (QuestParametersModel {
                        quest_state: Some(QuestStateModel {
                            active_quests: qs.active_quests.update(i as int,
                                Some(ActiveQuestModel { quest_id, ..qs.active_quests[i as int]->0 })),
                            ..qs }),
                        ..p }, true)
                } else { (p, false) },
                None => (p, false),
            },
            QsdRewardQuestAction::ChangeSelectedIdResetData(quest_id) => match p.selected_quest_index {
                Some(i) => if i < qs.active_quests.len() && qs.active_quests[i as int] is Some {
                    (QuestParametersModel {
                        quest_state: Some(QuestStateModel {
                            active_quests: qs.active_quests.update(i as int, Some(new_active_quest(quest_id, expire_time))),
                            ..qs }),
                        ..p }, true)
                } else { (p, false) },
                None => (p, false),
            },
            QsdRewardQuestAction::Select(quest_id) => {
                if exists|j: int| slot_has_quest(qs.active_quests, j, quest_id) {
                    let i = choose|j: int| slot_has_quest(qs.active_quests, j, quest_id)
                        && forall|k: int| 0 <= k < j ==> !slot_has_quest(qs.active_quests, k, quest_id);
                    (QuestParametersModel { selected_quest_index: Some(i as usize), ..p }, true)
                } else {
                    (p, false)
                }
            },
        },
    }
}

/// Reward "quest": removes, starts, renames, restarts or selects a quest.
/// `time_limit` is the time limit of the quest the action names.
pub fn quest_reward_quest_action(
    quest_parameters: &mut QuestParameters,
    action: QsdRewardQuestAction,
    world_ticks: u64,
    time_limit: Option<u64>,
) -> (result: bool)
    requires
        time_limit matches Some(t) ==> world_ticks + t <= u64::MAX,
    ensures
        (final(quest_parameters)@, result) == spec_quest_action(old(quest_parameters)@, action, spec_quest_expire_time(world_ticks, time_limit)),
        final(quest_parameters).source == old(quest_parameters).source,
{
    let ghost p0 = quest_parameters@;
    let mut quest_state = match quest_parameters.quest_state.take() {
        Some(qs) => qs,
        None => return false,
    };
    let ghost qs0 = quest_state@;
    let result = match action {
        QsdRewardQuestAction::RemoveSelected => {
            match quest_parameters.selected_quest_index {
                Some(index) => {
                    if index < quest_state.active_quests.len() {
                        quest_state.active_quests.set(index, None);
                        assert(quest_state@.active_quests =~= qs0.active_quests.update(index as int, None));
                        true
                    } else {
                        false
                    }
                },
                None => false,
            }
        },
        QsdRewardQuestAction::Add(quest_id) => {
            let expire_time = quest_get_expire_time(world_ticks, time_limit);
            match quest_state.try_add_quest(ActiveQuest::new(quest_id, expire_time)) {
                Some(index) => {
                    if quest_parameters.selected_quest_index.is_none() {
                        quest_parameters.selected_quest_index = Some(index);
                    }
                    proof {
                        let w = index as int;
                        assert(0 <= w < qs0.active_quests.len() && qs0.active_quests[w] is None);
                        let c = choose|j: int| 0 <= j < qs0.active_quests.len() && qs0.active_quests[j] is None
                            && forall|k: int| 0 <= k < j ==> qs0.active_quests[k] is Some;
                        assert(c == w) by {
                            if c < w { assert(qs0.active_quests[c] is Some); }
                            if w < c { assert(qs0.active_quests[w] is Some); }
                        }
                    }
                    true
                },
                None => false,
            }
        },
        QsdRewardQuestAction::ChangeSelectedIdKeepData(quest_id) => {
            match quest_parameters.selected_quest_index {
                Some(index) => {
                    if index < quest_state.active_quests.len() && quest_state.active_quests[index].is_some() {
                        let mut slot: Option<ActiveQuest> = None;
                        quest_state.active_quests.set_and_swap(index, &mut slot);
                        let mut q = slot.unwrap();
                        q.quest_id = quest_id;
                        quest_state.active_quests.set(index, Some(q));
                        assert(quest_state@.active_quests =~= qs0.active_quests.update(index as int,
                            Some(ActiveQuestModel { quest_id, ..qs0.active_quests[index as int]->0 })));
                        true
                    } else {
                        false
                    }
                },
                None => false,
            }
        },
        QsdRewardQuestAction::ChangeSelectedIdResetData(quest_id) => {
            match quest_parameters.selected_quest_index {
                Some(index) => {
                    if index < quest_state.active_quests.len() && quest_state.active_quests[index].is_some() {
                        let expire_time = quest_get_expire_time(world_ticks, time_limit);
                        quest_state.active_quests.set(index, Some(ActiveQuest::new(quest_id, expire_time)));
                        assert(quest_state@.active_quests =~= qs0.active_quests.update(index as int, Some(new_active_quest(quest_id, expire_time))));
                        true
                    } else {
                        false
                    }
                },
                None => false,
            }
        },
        QsdRewardQuestAction::Select(quest_id) => {
            match quest_state.find_active_quest_index(quest_id) {
                Some(index) => {
                    quest_parameters.selected_quest_index = Some(index);
                    proof {
                        let w = index as int;
                        let c = choose|j: int| slot_has_quest(qs0.active_quests, j, quest_id)
                            && forall|k: int| 0 <= k < j ==> !slot_has_quest(qs0.active_quests, k, quest_id);
                        assert(slot_has_quest(qs0.active_quests, w, quest_id));
                        assert(c == w) by {
                            if c < w { assert(!slot_has_quest(qs0.active_quests, c, quest_id)); }
                            if w < c { assert(!slot_has_quest(qs0.active_quests, w, quest_id)); }
                        }
                    }
                    true
                },
                None => false,
            }
        },
    };
    quest_parameters.quest_state = Some(quest_state);
    result
}

/// The last variable of the selected quest, which counts how often a
/// calculated money reward was repeated.
pub open spec fn spec_money_dup_count_var(p: QuestParametersModel) -> Option<u16> {
    match selected_quest(p) {
        Some(q) => if q.variables.len() > 0 { Some(q.variables.last()) } else { None },
        None => None,
    }
}

/// Reads the repeat counter of a calculated money reward.
pub fn get_quest_calculated_money_dup_count_var(quest_parameters: &QuestParameters) -> (result: Option<u16>)
    ensures
        result == spec_money_dup_count_var(quest_parameters@),
{
    match selected_active_quest(quest_parameters) {
        Some(q) => {
            if q.variables.len() > 0 {
                Some(q.variables[q.variables.len() - 1])
            } else {
                None
            }
        },
        None => None,
    }
}

/// The parameters with the repeat counter of the selected quest set to zero
/// (unchanged when there is no such counter).
pub open spec fn spec_reset_money_dup_count_var(p: QuestParametersModel) -> QuestParametersModel {
    match (p.quest_state, p.selected_quest_index) {
        (Some(qs), Some(i)) => if i < qs.active_quests.len() && qs.active_quests[i as int] is Some
            && qs.active_quests[i as int]->0.variables.len() > 0 {
            let q = qs.active_quests[i as int]->0;
            QuestParametersModel {
                quest_state: Some(QuestStateModel {
                    active_quests: qs.active_quests.update(i as int, Some(ActiveQuestModel {
                        variables: q.variables.update(q.variables.len() - 1, 0u16), ..q })),
                    ..qs }),
                ..p }
        } else { p },
        _ => p,
    }
}

/// Sets the repeat counter of a calculated money reward back to zero.
pub fn reset_quest_calculated_money_dup_count_var(quest_parameters: &mut QuestParameters) -> (result: Option<()>)
    ensures
        final(quest_parameters)@ == spec_reset_money_dup_count_var(old(quest_parameters)@),
        result is Some <==> spec_money_dup_count_var(old(quest_parameters)@) is Some,
        final(quest_parameters).source == old(quest_parameters).source,
{
    let index = quest_parameters.selected_quest_index?;
    let mut quest_state = quest_parameters.quest_state.take()?;
    let ghost qs0 = quest_state@;
    if index < quest_state.active_quests.len() && quest_state.active_quests[index].is_some() {
        let mut slot: Option<ActiveQuest> = None;
        quest_state.active_quests.set_and_swap(index, &mut slot);
        let mut q = slot.unwrap();
        let n = q.variables.len();
        if n > 0 {
            q.variables.set(n - 1, 0);
            quest_state.active_quests.set(index, Some(q));
            assert(quest_state@.active_quests =~= spec_reset_money_dup_count_var(old(quest_parameters)@).quest_state->0.active_quests);
            quest_parameters.quest_state = Some(quest_state);
            Some(())
        } else {
            quest_state.active_quests.set(index, Some(q));
            assert(quest_state@.active_quests =~= qs0.active_quests);
            quest_parameters.quest_state = Some(quest_state);
            None
        }
    } else {
        quest_parameters.quest_state = Some(quest_state);
        None
    }
}

/// The meaning of the calculated money reward paying `reward_value`.
pub open spec fn spec_calculated_money(p: QuestParametersModel, reward_value: i32) -> QuestParametersModel {
    match p.source.inventory {
        Some(inv) => if i64::MIN <= inv.money.0 + reward_value <= i64::MAX {
            QuestParametersModel {
                source: QuestSourceModel {
                    inventory: Some(Inventory { money: Money((inv.money.0 + reward_value) as i64) }),
                    ..p.source },
                ..spec_reset_money_dup_count_var(p) }
        } else { p },
        None => p,
    }
}

/// Reward "calculated money": pays `reward_value` (the amount the reward
/// equation gave) into the inventory; when the inventory took it, the
/// repeat counter of the selected quest restarts at zero. The reward always
/// counts as applied.
pub fn quest_reward_calculated_money(quest_parameters: &mut QuestParameters, reward_value: i32) -> (result: bool)
    requires
        old(quest_parameters).wf(),
    ensures
        result,
        final(quest_parameters).wf(),
        final(quest_parameters)@ == spec_calculated_money(old(quest_parameters)@, reward_value),
{
    let money = Money(reward_value as i64);
    if let Some(mut inventory) = quest_parameters.source.inventory {
        if inventory.try_add_money(money).is_ok() {
            quest_parameters.source.inventory = Some(inventory);
            reset_quest_calculated_money_dup_count_var(quest_parameters);
        }
    }
    true
}

/// Reward "calculated experience points": grants `reward_value` (the amount
/// the reward equation gave) as experience, read as an unsigned 64-bit
/// amount. The reward always counts as applied.
pub fn quest_reward_calculated_experience_points(quest_parameters: &mut QuestParameters, reward_value: i32) -> (result: bool)
    ensures
        result,
        final(quest_parameters)@ == (QuestParametersModel {
            reward_xp: old(quest_parameters)@.reward_xp.push(reward_value as u64), ..old(quest_parameters)@ }),
        final(quest_parameters).source == old(quest_parameters).source,
{
    quest_parameters.reward_xp.push(reward_value as u64);
    true
}

/// The local date and time of the server, as the time conditions read it.
#[derive(Clone, Copy, Debug, PartialEq, Eq, Structural)]
pub struct LocalTime {
    /// Day of the month, from 1.
    pub day: u32,
    /// Days since Sunday, 0 to 6.
    pub weekday_from_sunday: u32,
    pub hour: u32,
    pub minute: u32,
}

/// The "minutes of the day" that time conditions compare: the hour plus the
/// minute, as the conditions compute it.
pub open spec fn local_day_minutes(local_time: LocalTime) -> int {
    (local_time.hour as i32) as int + (local_time.minute as i32) as int
}

/// Condition "world time": the world time lies in `start..=end`.
pub fn quest_condition_world_time(world_time: u32, start: u32, end: u32) -> (result: bool)
    ensures
        result == (start <= world_time <= end),
{
    start <= world_time && world_time <= end
}

/// Condition "month day and time": the day of the month matches when one is
/// given, and the day minutes lie in `start..=end`.
pub fn quest_condition_month_day_time(local_time: LocalTime, month_day: Option<u8>, start: i32, end: i32) -> (result: bool)
    requires
        local_time.hour < 24,
        local_time.minute < 60,
    ensures
        result == ((month_day matches Some(d) ==> d as u32 == local_time.day)
            && start <= local_day_minutes(local_time) <= end),
{
    if let Some(d) = month_day {
        if d as u32 != local_time.day {
            return false;
        }
    }
    let local_day_minutes = local_time.hour as i32 + local_time.minute as i32;
    start <= local_day_minutes && local_day_minutes <= end
}

/// Condition "week day and time": the day of the week matches and the day
/// minutes lie in `start..=end`.
pub fn quest_condition_week_day_time(local_time: LocalTime, week_day: u8, start: i32, end: i32) -> (result: bool)
    requires
        local_time.hour < 24,
        local_time.minute < 60,
    ensures
        result == (week_day as u32 == local_time.weekday_from_sunday
            && start <= local_day_minutes(local_time) <= end),
{
    if week_day as u32 != local_time.weekday_from_sunday {
        return false;
    }
    let local_day_minutes = local_time.hour as i32 + local_time.minute as i32;
    start <= local_day_minutes && local_day_minutes <= end
}

/// Deleting a quest on request: the slot must exist and hold that quest.
pub fn quest_delete(quest_state: &mut QuestState, slot: usize, quest_id: usize) -> (result: bool)
    ensures
        result == slot_has_quest(old(quest_state)@.active_quests, slot as int, quest_id),
        result ==> final(quest_state)@ == (QuestStateModel {
            active_quests: old(quest_state)@.active_quests.update(slot as int, None), ..old(quest_state)@ }),
        !result ==> final(quest_state)@ == old(quest_state)@,
{
    if slot < quest_state.active_quests.len() {
        let matches = match &quest_state.active_quests[slot] {
            Some(q) => q.quest_id == quest_id,
            None => false,
        };
        if matches {
            let ghost before = quest_state@;
            quest_state.active_quests.set(slot, None);
            assert(quest_state@.active_quests =~= before.active_quests.update(slot as int, None));
            return true;
        }
    }
    false
}

} // verus!

use vstd::prelude::*;
use crate::operators::AipResultOperator;
use crate::ai::{
    ai_action_attack_owner_target, ai_action_kill_self_damage, ai_action_use_skill, monster_spawn_state_zone,
    skill_command, AipMonsterSpawnState, AipSkillTarget, AipVariableType, NpcSkillCommand,
};
use crate::ai_program::{AiState, AiView};

verus! {

/// An action of an NPC AI event. `Outside` stands for the actions whose work
/// is ground positions or game data (moving, spawning and transforming NPCs,
/// messages, items, attacks chosen by distance): the caller carries those out.
#[derive(Clone, Debug)]
pub enum AipAction {
    Stop,
    AttackNearChar,
    AttackFindChar,
    AttackAttacker,
    AttackOwnerTarget,
    DoQuestTrigger(String),
    KillSelf,
    Emote(i32),
    UseSkill(AipSkillTarget, i32, i32),
    SetMonsterSpawnState(Option<i32>, AipMonsterSpawnState),
    SetVariable(AipVariableType, usize, AipResultOperator, i32),
    /// Speech is shown by the clients alone.
    Say,
    /// An attack no program uses.
    SpecialAttack,
    Outside,
}

/// What an action asks of the world.
#[derive(Clone, Debug, PartialEq, Eq)]
pub enum NpcAiCommand {
    Stop,
    Attack(u64),
    Emote(u16),
    /// Runs the named quest trigger for the entity.
    QuestTrigger(u64, String),
    /// Damage the NPC deals itself.
    Damage(u64, u32),
    Skill(NpcSkillCommand),
    SetMonsterSpawnState(u16, AipMonsterSpawnState),
    /// Changes a variable of the entity.
    SetVariable(u64, AipVariableType, usize, AipResultOperator, i32),
    /// The action at this index is carried out by the caller.
    Outside(usize),
}

/// What the actions read beyond the AI's view: whether the NPC is a monster,
/// the team of NPCs, and the team of its owner's target when that is found.
#[derive(Clone, Copy, Debug, PartialEq, Eq, Structural)]
pub struct AiActionContext {
    pub is_monster: bool,
    pub npc_team: u32,
    pub owner_target_team: Option<u32>,
}

/// The command one action gives, if any.
pub open spec fn action_command(view: AiView, st: AiState, ctx: AiActionContext, action: AipAction, index: int)
    -> Option<NpcAiCommand>
{
    match action {
        AipAction::Stop => Some(NpcAiCommand::Stop),
        AipAction::AttackNearChar => match st.near_char {
            Some(e) => Some(NpcAiCommand::Attack(e)),
            None => None,
        },
        AipAction::AttackFindChar => match st.find_char {
            Some(e) => Some(NpcAiCommand::Attack(e)),
            None => None,
        },
        AipAction::AttackAttacker => match view.attacker {
            Some((e, _, _)) => Some(NpcAiCommand::Attack(e)),
            None => None,
        },
        AipAction::AttackOwnerTarget => match (view.owner_target, ctx.owner_target_team) {
            (Some(Some(t)), Some(team)) => if team != ctx.npc_team && team != view.team {
                Some(NpcAiCommand::Attack(t))
            } else {
                None
            },
            _ => None,
        },
        AipAction::DoQuestTrigger(name) => if ctx.is_monster {
            match st.selected_local_npc {
                Some(e) => Some(NpcAiCommand::QuestTrigger(e, name)),
                None => None,
            }
        } else {
            Some(NpcAiCommand::QuestTrigger(view.source, name))
        },
        AipAction::KillSelf => Some(NpcAiCommand::Damage(view.source, (view.health_points + 1) as u32)),
        AipAction::Emote(motion) => Some(NpcAiCommand::Emote(motion as u16)),
        AipAction::UseSkill(skill_target, skill_id, motion_id) =>
            match skill_command(view.source, st.find_char, view.target, st.near_char, skill_target, skill_id, motion_id) {
                Some(c) => Some(NpcAiCommand::Skill(c)),
                None => None,
            },
        AipAction::SetMonsterSpawnState(zone_id, state) => Some(NpcAiCommand::SetMonsterSpawnState(
            match zone_id {
                Some(z) => if z as u16 != 0 { z as u16 } else { view.zone },
                None => view.zone,
            }, state)),
        AipAction::SetVariable(variable_type, id, operator, value) => match variable_type {
            AipVariableType::LocalNpcObject => match st.selected_local_npc {
                Some(e) => Some(NpcAiCommand::SetVariable(e, variable_type, id, operator, value)),
                None => None,
            },
            AipVariableType::Ai => Some(NpcAiCommand::SetVariable(view.source, variable_type, id, operator, value)),
            _ => None,
        },
        AipAction::Say | AipAction::SpecialAttack => None,
        AipAction::Outside => Some(NpcAiCommand::Outside(index as usize)),
    }
}

/// The commands of the first `n` actions, in order.
pub open spec fn actions_commands(view: AiView, st: AiState, ctx: AiActionContext, actions: Seq<AipAction>, n: nat)
    -> Seq<NpcAiCommand>
    decreases n,
{
    if n == 0 {
        Seq::empty()
    } else {
        let before = actions_commands(view, st, ctx, actions, (n - 1) as nat);
        match action_command(view, st, ctx, actions[n - 1], n - 1) {
            Some(c) => before.push(c),
            None => before,
        }
    }
}

/// Whether an action can be carried out: killing itself needs the NPC's
/// health below the largest damage, a skill a motion with a next one.
pub open spec fn action_in_range(view: AiView, action: AipAction) -> bool {
    match action {
        AipAction::KillSelf => view.health_points < u32::MAX,
        AipAction::UseSkill(_, _, motion_id) => (motion_id as u16) < u16::MAX,
        _ => true,
    }
}

fn action_command_of(view: &AiView, state: &AiState, ctx: AiActionContext, action: &AipAction, index: usize)
    -> (command: Option<NpcAiCommand>)
    requires
        action_in_range(*view, *action),
    ensures
        command == action_command(*view, *state, ctx, *action, index as int),
{
    match action {
        AipAction::Stop => Some(NpcAiCommand::Stop),
        AipAction::AttackNearChar => match state.near_char {
            Some(e) => Some(NpcAiCommand::Attack(e)),
            None => None,
        },
        AipAction::AttackFindChar => match state.find_char {
            Some(e) => Some(NpcAiCommand::Attack(e)),
            None => None,
        },
        AipAction::AttackAttacker => match &view.attacker {
            Some((e, _, _)) => Some(NpcAiCommand::Attack(*e)),
            None => None,
        },
        AipAction::AttackOwnerTarget => match view.owner_target {
            Some(Some(t)) => if ai_action_attack_owner_target(ctx.owner_target_team, view.team, ctx.npc_team) {
                Some(NpcAiCommand::Attack(t))
            } else {
                None
            },
            _ => None,
        },
        AipAction::DoQuestTrigger(name) => if ctx.is_monster {
            match state.selected_local_npc {
                Some(e) => Some(NpcAiCommand::QuestTrigger(e, name.clone())),
                None => None,
            }
        } else {
            Some(NpcAiCommand::QuestTrigger(view.source, name.clone()))
        },
        AipAction::KillSelf => Some(NpcAiCommand::Damage(view.source, ai_action_kill_self_damage(view.health_points))),
        AipAction::Emote(motion) => Some(NpcAiCommand::Emote(*motion as u16)),
        AipAction::UseSkill(skill_target, skill_id, motion_id) =>
            match ai_action_use_skill(view.source, state.find_char, view.target, state.near_char, *skill_target,
                *skill_id, *motion_id) {
                Some(c) => Some(NpcAiCommand::Skill(c)),
                None => None,
            },
        AipAction::SetMonsterSpawnState(zone_id, spawn_state) =>
            Some(NpcAiCommand::SetMonsterSpawnState(monster_spawn_state_zone(*zone_id, view.zone), *spawn_state)),
        AipAction::SetVariable(variable_type, id, operator, value) => match variable_type {
            AipVariableType::LocalNpcObject => match state.selected_local_npc {
                Some(e) => Some(NpcAiCommand::SetVariable(e, *variable_type, *id, *operator, *value)),
                None => None,
            },
            AipVariableType::Ai => Some(NpcAiCommand::SetVariable(view.source, *variable_type, *id, *operator, *value)),
            _ => None,
        },
        AipAction::Say | AipAction::SpecialAttack => None,
        AipAction::Outside => Some(NpcAiCommand::Outside(index)),
    }
}

/// Carries out the actions of the event a trigger chose, in order, as the
/// commands they give; `state` is what the event's conditions left.
pub fn npc_ai_do_actions(view: &AiView, state: &AiState, ctx: AiActionContext, actions: &Vec<AipAction>)
    -> (commands: Vec<NpcAiCommand>)
    requires
        forall|i: int| 0 <= i < actions@.len() ==> action_in_range(*view, #[trigger] actions@[i]),
    ensures
        commands@ == actions_commands(*view, *state, ctx, actions@, actions@.len()),
{
    let mut commands: Vec<NpcAiCommand> = Vec::new();
    let mut i: usize = 0;
    while i < actions.len()
        invariant
            i <= actions.len(),
            forall|k: int| 0 <= k < actions@.len() ==> action_in_range(*view, #[trigger] actions@[k]),
            commands@ == actions_commands(*view, *state, ctx, actions@, i as nat),
        decreases actions.len() - i,
    {
        assert(action_in_range(*view, actions@[i as int]));
        match action_command_of(view, state, ctx, &actions[i], i) {
            Some(c) => commands.push(c),
            None => {},
        }
        i += 1;
    }
    commands
}

} // verus!

use vstd::prelude::*;

verus! {

/// The kind of entity a move command follows.
#[derive(Clone, Copy, Debug, PartialEq, Eq, Structural)]
pub enum TargetKind {
    Character,
    Npc,
    DroppedItem,
    Other,
}

/// The command an entity carries out once its current one is done.
#[derive(Clone, Copy, Debug, PartialEq, Eq, Structural)]
pub enum NextCommand {
    Stop,
    Move { target: Option<u64> },
    Attack { target: u64 },
    PickupDroppedItem { target: u64 },
}

/// What the clients are told when a next command is first seen.
#[derive(Clone, Copy, Debug, PartialEq, Eq, Structural)]
pub enum Announcement {
    Nothing,
    /// A move, following `target` when it is still there.
    Move { target: Option<u64> },
    Attack { target: u64 },
}

/// When a next command is first seen: a move follows its target only while
/// the target is in the entity's zone (else the target is dropped), and an
/// attack on a target that is not in the zone or not alive becomes a stop.
pub fn announce_next_command(next: NextCommand, move_target_valid: bool, attack_target_valid: bool)
    -> (result: (NextCommand, Announcement))
    ensures
        result == match next {
            NextCommand::Move { target: Some(t) } => if move_target_valid {
                (next, Announcement::Move { target: Some(t) })
            } else {
                (NextCommand::Move { target: None }, Announcement::Move { target: None })
            },
            NextCommand::Move { target: None } => (next, Announcement::Move { target: None }),
            NextCommand::Attack { target } => if attack_target_valid {
                (next, Announcement::Attack { target })
            } else {
                (NextCommand::Stop, Announcement::Nothing)
            },
            _ => (next, Announcement::Nothing),
        },
{
    match next {
        NextCommand::Move { target: Some(t) } => {
            if move_target_valid {
                (next, Announcement::Move { target: Some(t) })
            } else {
                (NextCommand::Move { target: None }, Announcement::Move { target: None })
            }
        },
        NextCommand::Move { target: None } => (next, Announcement::Move { target: None }),
        NextCommand::Attack { target } => {
            if attack_target_valid {
                (next, Announcement::Attack { target })
            } else {
                (NextCommand::Stop, Announcement::Nothing)
            }
        },
        _ => (next, Announcement::Nothing),
    }
}

/// The current command is done once it has run longer than it needs; one
/// with no required duration is done at once.
pub fn command_complete(elapsed: u64, required: Option<u64>) -> (complete: bool)
    ensures
        complete == match required {
            Some(d) => elapsed > d,
            None => true,
        },
{
    match required {
        Some(d) => elapsed > d,
        None => true,
    }
}

/// How near, in tenths of a unit, a moving entity must come to its
/// destination, by the kind of target it follows.
pub fn arrive_distance_tenths(target: Option<TargetKind>) -> (tenths: u32)
    ensures
        tenths == match target {
            Some(TargetKind::Character) => 10000u32,
            Some(TargetKind::Npc) => 2500u32,
            Some(TargetKind::DroppedItem) => 1500u32,
            _ => 1u32,
        },
{
    match target {
        Some(TargetKind::Character) => 10000,
        Some(TargetKind::Npc) => 2500,
        Some(TargetKind::DroppedItem) => 1500,
        _ => 1,
    }
}

/// What the world shows of the next command's target this tick.
#[derive(Clone, Copy, Debug, PartialEq, Eq, Structural)]
pub struct CommandView {
    /// The kind of the move target, when it is in the entity's zone.
    pub move_target: Option<TargetKind>,
    /// Whether the destination is nearer than the arrive distance.
    pub destination_reached: bool,
    /// When the attack target is in the zone and alive: whether it is within
    /// attack range.
    pub attack_target_in_range: Option<bool>,
    /// Whether the entity has an inventory to pick items up into.
    pub has_inventory: bool,
    /// Whether the dropped item is in the zone and within reach.
    pub pickup_target_in_reach: bool,
}

/// What the entity does this tick.
#[derive(Clone, Copy, Debug, PartialEq, Eq, Structural)]
pub enum CommandEffect {
    /// Nothing changes.
    Wait,
    /// The entity stops: destination and target cleared, the stop announced.
    Stop,
    /// The move is over: the current command becomes a stop, destination and
    /// target cleared.
    Arrived,
    /// The entity heads for its destination (following `target`, if any;
    /// `target_lost` clears the followed target first).
    MoveTowards { target: Option<u64>, target_lost: bool },
    /// The pickup rules decide on the dropped item.
    TryPickup { target: u64 },
    /// In range: the attack starts and its damage is queued.
    Attack { target: u64 },
    /// Out of range: the entity moves towards the target.
    ChaseTarget { target: u64 },
}

/// One tick of the command an entity carries out: nothing happens while the
/// current command runs or when no next command waits; otherwise the next
/// command is carried out and the returned next command is what waits after
/// this tick. A move stays next until the destination is reached; a pickup
/// is dropped once the entity has an inventory; an attack stays next while
/// its target is valid and stops the entity otherwise.
pub fn command_tick(next: Option<NextCommand>, complete: bool, view: CommandView)
    -> (result: (CommandEffect, Option<NextCommand>))
    ensures
        !complete || next is None ==> result == (CommandEffect::Wait, next),
        complete ==> match next {
            Some(NextCommand::Stop) => result == (CommandEffect::Stop, None::<NextCommand>),
            Some(NextCommand::Move { target }) => {
                let lost = target is Some && view.move_target is None;
                let kept = if lost { None } else { target };
                result.1 == Some(NextCommand::Move { target: kept })
                    && result.0 == if view.destination_reached {
                        CommandEffect::Arrived
                    } else {
                        CommandEffect::MoveTowards { target: kept, target_lost: lost }
                    }
            },
            Some(NextCommand::PickupDroppedItem { target }) => if !view.has_inventory {
                result == (CommandEffect::Wait, next)
            } else if view.pickup_target_in_reach {
                result == (CommandEffect::TryPickup { target }, None::<NextCommand>)
            } else {
                result == (CommandEffect::Wait, None::<NextCommand>)
            },
            Some(NextCommand::Attack { target }) => match view.attack_target_in_range {
                Some(true) => result == (CommandEffect::Attack { target }, next),
                Some(false) => result == (CommandEffect::ChaseTarget { target }, next),
                None => result == (CommandEffect::Stop, None::<NextCommand>),
            },
            None => true,
        },
{
    if !complete {
        return (CommandEffect::Wait, next);
    }
    match next {
        None => (CommandEffect::Wait, None),
        Some(NextCommand::Stop) => (CommandEffect::Stop, None),
        Some(NextCommand::Move { target }) => {
            let lost = target.is_some() && view.move_target.is_none();
            let kept = if lost { None } else { target };
            if view.destination_reached {
                (CommandEffect::Arrived, Some(NextCommand::Move { target: kept }))
            } else {
                (CommandEffect::MoveTowards { target: kept, target_lost: lost }, Some(NextCommand::Move { target: kept }))
            }
        },
        Some(NextCommand::PickupDroppedItem { target }) => {
            if !view.has_inventory {
                (CommandEffect::Wait, next)
            } else if view.pickup_target_in_reach {
                (CommandEffect::TryPickup { target }, None)
            } else {
                (CommandEffect::Wait, None)
            }
        },
        Some(NextCommand::Attack { target }) => match view.attack_target_in_range {
            Some(true) => (CommandEffect::Attack { target }, next),
            Some(false) => (CommandEffect::ChaseTarget { target }, next),
            None => (CommandEffect::Stop, None),
        },
    }
}

} // verus!

use rose_offline::command::{
    announce_next_command, arrive_distance_tenths, command_complete, command_tick, Announcement, CommandEffect,
    CommandView, NextCommand, TargetKind,
};

fn view() -> CommandView {
    CommandView {
        move_target: Some(TargetKind::Npc),
        destination_reached: false,
        attack_target_in_range: Some(true),
        has_inventory: true,
        pickup_target_in_reach: true,
    }
}

#[test]
fn announcing_moves_and_attacks() {
    let next = NextCommand::Move { target: Some(4) };
    assert_eq!(announce_next_command(next, true, false), (next, Announcement::Move { target: Some(4) }));
    assert_eq!(
        announce_next_command(next, false, false),
        (NextCommand::Move { target: None }, Announcement::Move { target: None })
    );
    let attack = NextCommand::Attack { target: 9 };
    assert_eq!(announce_next_command(attack, false, true), (attack, Announcement::Attack { target: 9 }));
    assert_eq!(announce_next_command(attack, true, false), (NextCommand::Stop, Announcement::Nothing));
    assert_eq!(announce_next_command(NextCommand::Stop, true, true), (NextCommand::Stop, Announcement::Nothing));
}

#[test]
fn commands_wait_until_complete() {
    assert!(!command_complete(500, Some(500)));
    assert!(command_complete(501, Some(500)));
    assert!(command_complete(0, None));
    let next = Some(NextCommand::Stop);
    assert_eq!(command_tick(next, false, view()), (CommandEffect::Wait, next));
    assert_eq!(command_tick(None, true, view()), (CommandEffect::Wait, None));
    assert_eq!(command_tick(next, true, view()), (CommandEffect::Stop, None));
}

#[test]
fn moves_follow_their_target_until_arrived() {
    let next = Some(NextCommand::Move { target: Some(3) });
    assert_eq!(
        command_tick(next, true, view()),
        (CommandEffect::MoveTowards { target: Some(3), target_lost: false }, next)
    );
    let lost = CommandView { move_target: None, ..view() };
    assert_eq!(
        command_tick(next, true, lost),
        (CommandEffect::MoveTowards { target: None, target_lost: true }, Some(NextCommand::Move { target: None }))
    );
    let reached = CommandView { destination_reached: true, ..view() };
    assert_eq!(command_tick(next, true, reached), (CommandEffect::Arrived, next));
    assert_eq!(arrive_distance_tenths(Some(TargetKind::Character)), 10000);
    assert_eq!(arrive_distance_tenths(Some(TargetKind::Npc)), 2500);
    assert_eq!(arrive_distance_tenths(Some(TargetKind::DroppedItem)), 1500);
    assert_eq!(arrive_distance_tenths(None), 1);
}

#[test]
fn attacks_and_pickups() {
    let attack = Some(NextCommand::Attack { target: 8 });
    assert_eq!(command_tick(attack, true, view()), (CommandEffect::Attack { target: 8 }, attack));
    let far = CommandView { attack_target_in_range: Some(false), ..view() };
    assert_eq!(command_tick(attack, true, far), (CommandEffect::ChaseTarget { target: 8 }, attack));
    let gone = CommandView { attack_target_in_range: None, ..view() };
    assert_eq!(command_tick(attack, true, gone), (CommandEffect::Stop, None));

    let pickup = Some(NextCommand::PickupDroppedItem { target: 5 });
    assert_eq!(command_tick(pickup, true, view()), (CommandEffect::TryPickup { target: 5 }, None));
    let out_of_reach = CommandView { pickup_target_in_reach: false, ..view() };
    assert_eq!(command_tick(pickup, true, out_of_reach), (CommandEffect::Wait, None));
    let no_inventory = CommandView { has_inventory: false, ..view() };
    assert_eq!(command_tick(pickup, true, no_inventory), (CommandEffect::Wait, pickup));
}

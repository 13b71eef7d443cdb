use rose_offline::party::{
    get_party_membership_info, handle_party_accept_invite, handle_party_change_owner, handle_party_invite,
    handle_party_kick, handle_party_leave, handle_party_member_disconnect, handle_party_update_rules,
    party_average_member_level, party_member_reconnect, Party, PartyChangeOwnerError, PartyInviteError,
    PartyInviteMessage, PartyItemSharing, PartyKickError, PartyLeaveError, PartyMember, PartyMemberDisconnectError,
    PartyMemberInfo, PartyMemberInfoQuery, PartyMembershipQuery, PartyUpdateRulesError, PartyWorld, PartyXpSharing,
};

fn character(entity: u64, id: u32, name: &str) -> PartyMembershipQuery {
    PartyMembershipQuery { entity, character_id: id, name: name.to_string(), party_membership: None }
}

fn world_of(n: u64) -> PartyWorld {
    PartyWorld {
        parties: Vec::new(),
        characters: (1..=n).map(|e| character(e, e as u32 * 10, &format!("c{}", e))).collect(),
    }
}

fn membership(world: &PartyWorld, entity: u64) -> Option<u64> {
    world.characters.iter().find(|c| c.entity == entity).and_then(|c| c.party_membership)
}

fn members(world: &PartyWorld, party: u64) -> Vec<String> {
    world
        .parties
        .iter()
        .find(|p| p.entity == party)
        .map(|p| {
            p.members
                .iter()
                .map(|m| match m {
                    PartyMember::Online(e) => format!("on{}", e),
                    PartyMember::Offline(id, name) => format!("off{}:{}", id, name),
                })
                .collect()
        })
        .unwrap_or_default()
}

/// A party of 1 (owner) and 2, with entity 100.
fn world_with_party() -> PartyWorld {
    let mut world = world_of(4);
    assert_eq!(handle_party_accept_invite(&mut world, 1, 2, 100), Ok(()));
    world
}

#[test]
fn invite_creates_request_then_accept_creates_party() {
    let mut world = world_of(3);
    assert_eq!(handle_party_invite(&world, 1, 2), Ok(PartyInviteMessage::Create));
    assert_eq!(handle_party_accept_invite(&mut world, 1, 2, 100), Ok(()));
    assert_eq!(world.parties.len(), 1);
    assert_eq!(world.parties[0].owner, 1);
    assert_eq!(members(&world, 100), vec!["on1", "on2"]);
    assert_eq!(membership(&world, 1), Some(100));
    assert_eq!(membership(&world, 2), Some(100));
    assert_eq!(handle_party_invite(&world, 1, 3), Ok(PartyInviteMessage::Invite));
}

#[test]
fn invite_errors() {
    let world = world_with_party();
    assert_eq!(handle_party_invite(&world, 1, 1), Err(PartyInviteError::InvalidEntity));
    assert_eq!(handle_party_invite(&world, 1, 99), Err(PartyInviteError::InvalidEntity));
    assert_eq!(handle_party_invite(&world, 1, 2), Err(PartyInviteError::AlreadyHasParty));
    assert_eq!(handle_party_invite(&world, 2, 3), Ok(PartyInviteMessage::Invite));
}

#[test]
fn accept_joins_existing_party_until_full() {
    let mut world = world_of(7);
    assert_eq!(handle_party_accept_invite(&mut world, 1, 2, 100), Ok(()));
    assert_eq!(handle_party_accept_invite(&mut world, 1, 3, 101), Ok(()));
    assert_eq!(handle_party_accept_invite(&mut world, 1, 4, 101), Ok(()));
    assert_eq!(handle_party_accept_invite(&mut world, 1, 5, 101), Ok(()));
    assert_eq!(members(&world, 100), vec!["on1", "on2", "on3", "on4", "on5"]);
    assert_eq!(handle_party_accept_invite(&mut world, 1, 6, 101), Err(PartyInviteError::PartyFull));
    assert_eq!(handle_party_accept_invite(&mut world, 2, 6, 101), Err(PartyInviteError::NoPermission));
    assert_eq!(world.parties.len(), 1);
}

#[test]
fn leave_of_member_dissolves_party_of_two() {
    let mut world = world_with_party();
    assert_eq!(handle_party_leave(&mut world, 2), Ok(()));
    assert!(world.parties.is_empty());
    assert_eq!(membership(&world, 1), None);
    assert_eq!(membership(&world, 2), None);
    assert_eq!(handle_party_leave(&mut world, 2), Err(PartyLeaveError::NotInParty));
    assert_eq!(handle_party_leave(&mut world, 42), Err(PartyLeaveError::InvalidEntity));
}

#[test]
fn leave_of_owner_hands_over_to_first_online() {
    let mut world = world_with_party();
    assert_eq!(handle_party_accept_invite(&mut world, 1, 3, 101), Ok(()));
    assert_eq!(handle_party_leave(&mut world, 1), Ok(()));
    assert_eq!(world.parties[0].owner, 2);
    assert_eq!(members(&world, 100), vec!["on2", "on3"]);
    assert_eq!(membership(&world, 1), None);
}

#[test]
fn change_owner_and_rules() {
    let mut world = world_with_party();
    assert_eq!(handle_party_change_owner(&mut world, 2, 1), Err(PartyChangeOwnerError::NotOwner));
    assert_eq!(handle_party_change_owner(&mut world, 1, 3), Err(PartyChangeOwnerError::InvalidNewOwnerEntity));
    assert_eq!(handle_party_change_owner(&mut world, 3, 1), Err(PartyChangeOwnerError::NotInParty));
    assert_eq!(handle_party_change_owner(&mut world, 1, 2), Ok(()));
    assert_eq!(world.parties[0].owner, 2);
    assert_eq!(
        handle_party_update_rules(&mut world, 1, PartyItemSharing::AcquisitionOrder, PartyXpSharing::DistributedByLevel),
        Err(PartyUpdateRulesError::NotOwner)
    );
    assert_eq!(
        handle_party_update_rules(&mut world, 2, PartyItemSharing::AcquisitionOrder, PartyXpSharing::DistributedByLevel),
        Ok(())
    );
    assert_eq!(world.parties[0].item_sharing, PartyItemSharing::AcquisitionOrder);
    assert_eq!(world.parties[0].xp_sharing, PartyXpSharing::DistributedByLevel);
}

#[test]
fn kick_online_member() {
    let mut world = world_with_party();
    assert_eq!(handle_party_accept_invite(&mut world, 1, 3, 101), Ok(()));
    assert_eq!(handle_party_kick(&mut world, 2, 30), Err(PartyKickError::NotOwner));
    assert_eq!(handle_party_kick(&mut world, 1, 10), Err(PartyKickError::InvalidKickCharacter));
    assert_eq!(handle_party_kick(&mut world, 1, 40), Err(PartyKickError::InvalidKickCharacter));
    assert_eq!(handle_party_kick(&mut world, 4, 10), Err(PartyKickError::NotInParty));
    assert_eq!(handle_party_kick(&mut world, 9, 10), Err(PartyKickError::InvalidEntity));
    assert_eq!(handle_party_kick(&mut world, 1, 30), Ok(()));
    assert_eq!(members(&world, 100), vec!["on1", "on2"]);
    assert_eq!(membership(&world, 3), None);
}

#[test]
fn kick_last_other_member_dissolves_party() {
    let mut world = world_with_party();
    assert_eq!(handle_party_kick(&mut world, 1, 20), Ok(()));
    assert!(world.parties.is_empty());
    assert_eq!(membership(&world, 1), None);
}

#[test]
fn disconnect_reconnect_round_trip() {
    let mut world = world_with_party();
    assert_eq!(handle_party_accept_invite(&mut world, 1, 3, 101), Ok(()));
    assert_eq!(handle_party_member_disconnect(&mut world, 2), Ok(()));
    assert_eq!(members(&world, 100), vec!["on1", "off20:c2", "on3"]);
    assert!(world.characters.iter().all(|c| c.entity != 2));
    // a new connection of the same character rejoins the party
    assert_eq!(party_member_reconnect(&mut world, 12, 20, "c2".to_string()), Some(100));
    assert_eq!(members(&world, 100), vec!["on1", "on12", "on3"]);
    assert_eq!(membership(&world, 12), Some(100));
    // kicking an offline member removes its entry
    assert_eq!(handle_party_member_disconnect(&mut world, 3), Ok(()));
    assert_eq!(handle_party_kick(&mut world, 1, 30), Ok(()));
    assert_eq!(members(&world, 100), vec!["on1", "on12"]);
}

#[test]
fn owner_disconnect_hands_over_or_dissolves() {
    let mut world = world_with_party();
    assert_eq!(handle_party_member_disconnect(&mut world, 1), Ok(()));
    assert_eq!(world.parties[0].owner, 2);
    assert_eq!(members(&world, 100), vec!["off10:c1", "on2"]);
    assert_eq!(handle_party_member_disconnect(&mut world, 2), Ok(()));
    assert!(world.parties.is_empty());
    assert_eq!(handle_party_member_disconnect(&mut world, 3), Err(PartyMemberDisconnectError::InvalidParty));
    assert!(world.characters.iter().all(|c| c.entity != 3));
    assert_eq!(handle_party_member_disconnect(&mut world, 77), Err(PartyMemberDisconnectError::InvalidParty));
}

#[test]
fn reconnect_without_offline_entry_has_no_party() {
    let mut world = world_of(2);
    assert_eq!(party_member_reconnect(&mut world, 5, 50, "c5".to_string()), None);
    assert_eq!(membership(&world, 5), None);
    assert_eq!(world.characters.len(), 3);
}

#[test]
fn average_member_level() {
    assert_eq!(party_average_member_level(&vec![Some(10), None, Some(21)]), Some(15));
    assert_eq!(party_average_member_level(&vec![None, None]), None);
    assert_eq!(party_average_member_level(&vec![]), None);
    assert_eq!(party_average_member_level(&vec![Some(7)]), Some(7));
}

#[test]
fn membership_info_lists_known_online_and_offline_members() {
    let members = vec![PartyMember::Online(1), PartyMember::Offline(20, "c2".to_string()), PartyMember::Online(9)];
    let infos = vec![PartyMemberInfoQuery {
        entity: 1,
        character_id: 10,
        name: "c1".to_string(),
        entity_id: 5,
        health_points: 100,
        max_health: 120,
        concentration: 3,
        health_recovery: 1,
        mana_recovery: 2,
        stamina: 4,
    }];
    let list = get_party_membership_info(&members, &infos);
    assert_eq!(list.len(), 2);
    match &list[0] {
        PartyMemberInfo::Online(q) => assert_eq!(q.name, "c1"),
        _ => panic!("expected an online member first"),
    }
    match &list[1] {
        PartyMemberInfo::Offline(id, name) => {
            assert_eq!(*id, 20);
            assert_eq!(name, "c2");
        }
        _ => panic!("expected an offline member second"),
    }
}

#[test]
fn party_constructed_by_hand_keeps_fields() {
    let party = Party {
        entity: 1,
        owner: 2,
        members: vec![PartyMember::Online(2), PartyMember::Online(3)],
        item_sharing: PartyItemSharing::EqualLootDistribution,
        xp_sharing: PartyXpSharing::EqualShare,
        average_member_level: 0,
    };
    assert_eq!(party.members.len(), 2);
}

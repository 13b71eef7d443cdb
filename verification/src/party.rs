use vstd::prelude::*;

verus! {

/// Most members a party holds.
pub const PARTY_MAX_MEMBERS: usize = 5;

/// How a party shares dropped items.
#[derive(Clone, Copy, Debug, PartialEq, Eq, Structural)]
pub enum PartyItemSharing {
    EqualLootDistribution,
    AcquisitionOrder,
}

/// How a party shares experience.
#[derive(Clone, Copy, Debug, PartialEq, Eq, Structural)]
pub enum PartyXpSharing {
    EqualShare,
    DistributedByLevel,
}

/// A party member: a connected character (by entity), or one that
/// disconnected (by character id and name).
#[derive(Clone, Debug)]
pub enum PartyMember {
    Online(u64),
    Offline(u32, String),
}

pub enum PartyMemberModel {
    Online(u64),
    Offline(u32, Seq<char>),
}

impl View for PartyMember {
    type V = PartyMemberModel;

    open spec fn view(&self) -> PartyMemberModel {
        match self {
            PartyMember::Online(e) => PartyMemberModel::Online(*e),
            PartyMember::Offline(id, name) => PartyMemberModel::Offline(*id, name@),
        }
    }
}

/// A party and the entity that stands for it.
#[derive(Clone, Debug)]
pub struct Party {
    pub entity: u64,
    pub owner: u64,
    pub members: Vec<PartyMember>,
    pub item_sharing: PartyItemSharing,
    pub xp_sharing: PartyXpSharing,
    pub average_member_level: i32,
}

pub struct PartyModel {
    pub entity: u64,
    pub owner: u64,
    pub members: Seq<PartyMemberModel>,
    pub item_sharing: PartyItemSharing,
    pub xp_sharing: PartyXpSharing,
    pub average_member_level: i32,
}

impl View for Party {
    type V = PartyModel;

    open spec fn view(&self) -> PartyModel {
        PartyModel {
            entity: self.entity,
            owner: self.owner,
            members: self.members@.map_values(|m: PartyMember| m@),
            item_sharing: self.item_sharing,
            xp_sharing: self.xp_sharing,
            average_member_level: self.average_member_level,
        }
    }
}

/// A character as the party rules see it: its entity, its unique character
/// id and name, and the party it belongs to.
#[derive(Clone, Debug)]
pub struct PartyMembershipQuery {
    pub entity: u64,
    pub character_id: u32,
    pub name: String,
    pub party_membership: Option<u64>,
}

pub struct PartyCharacterModel {
    pub entity: u64,
    pub character_id: u32,
    pub name: Seq<char>,
    pub party_membership: Option<u64>,
}

impl View for PartyMembershipQuery {
    type V = PartyCharacterModel;

    open spec fn view(&self) -> PartyCharacterModel {
        PartyCharacterModel {
            entity: self.entity,
            character_id: self.character_id,
            name: self.name@,
            party_membership: self.party_membership,
        }
    }
}

/// All parties and all connected characters.
#[derive(Clone, Debug)]
pub struct PartyWorld {
    pub parties: Vec<Party>,
    pub characters: Vec<PartyMembershipQuery>,
}

pub struct PartyWorldModel {
    pub parties: Seq<PartyModel>,
    pub characters: Seq<PartyCharacterModel>,
}

impl View for PartyWorld {
    type V = PartyWorldModel;

    open spec fn view(&self) -> PartyWorldModel {
        PartyWorldModel {
            parties: self.parties@.map_values(|p: Party| p@),
            characters: self.characters@.map_values(|c: PartyMembershipQuery| c@),
        }
    }
}

pub open spec fn is_online_member(p: PartyModel, entity: u64) -> bool {
    exists|k: int| 0 <= k < p.members.len() && p.members[k] == PartyMemberModel::Online(entity)
}

/// Position `k` of party `i` holds a member that disconnected.
pub open spec fn offline_at(w: PartyWorldModel, i: int, k: int) -> bool {
    &&& 0 <= i < w.parties.len()
    &&& 0 <= k < w.parties[i].members.len()
    &&& w.parties[i].members[k] is Offline
}

/// The character id of the disconnected member at position `k` of party `i`.
pub open spec fn offline_id(w: PartyWorldModel, i: int, k: int) -> u32 {
    w.parties[i].members[k]->Offline_0
}

/// Character ids identify characters: connected characters have distinct
/// ids, and a disconnected member is listed once, under an id no connected
/// character has.
pub open spec fn character_ids_ok(w: PartyWorldModel) -> bool {
    &&& forall|a: int, b: int| 0 <= a < w.characters.len() && 0 <= b < w.characters.len() && a != b
        ==> (#[trigger] w.characters[a]).character_id != (#[trigger] w.characters[b]).character_id
    &&& forall|i: int, k: int, j: int, l: int|
        #[trigger] offline_at(w, i, k) && #[trigger] offline_at(w, j, l) && (i != j || k != l)
        ==> offline_id(w, i, k) != offline_id(w, j, l)
    &&& forall|i: int, k: int, c: int|
        #[trigger] offline_at(w, i, k) && 0 <= c < w.characters.len()
        ==> offline_id(w, i, k) != (#[trigger] w.characters[c]).character_id
}

/// Ids stay unique when every character and every disconnected member of
/// `w2` stands, one for one, for one of `w` with the same id.
proof fn lemma_ids_transfer(
    w: PartyWorldModel,
    w2: PartyWorldModel,
    cmap: spec_fn(int) -> int,
    pmap: spec_fn(int) -> int,
    kmap: spec_fn(int, int) -> int,
)
    requires
        character_ids_ok(w),
        forall|c: int| 0 <= c < w2.characters.len() ==> 0 <= #[trigger] cmap(c) < w.characters.len()
            && w.characters[cmap(c)].character_id == w2.characters[c].character_id,
        forall|a: int, b: int| 0 <= a < w2.characters.len() && 0 <= b < w2.characters.len() && a != b
            ==> #[trigger] cmap(a) != #[trigger] cmap(b),
        forall|i: int, k: int| #[trigger] offline_at(w2, i, k) ==> offline_at(w, pmap(i), kmap(i, k))
            && offline_id(w, pmap(i), kmap(i, k)) == offline_id(w2, i, k),
        forall|i: int, k: int, j: int, l: int|
            #[trigger] offline_at(w2, i, k) && #[trigger] offline_at(w2, j, l) && (i != j || k != l)
            ==> pmap(i) != pmap(j) || kmap(i, k) != kmap(j, l),
    ensures
        character_ids_ok(w2),
{
    assert forall|a: int, b: int| 0 <= a < w2.characters.len() && 0 <= b < w2.characters.len() && a != b
        implies (#[trigger] w2.characters[a]).character_id != (#[trigger] w2.characters[b]).character_id by {
        assert(cmap(a) != cmap(b));
        assert(w.characters[cmap(a)].character_id != w.characters[cmap(b)].character_id);
    }
    assert forall|i: int, k: int, j: int, l: int|
        #[trigger] offline_at(w2, i, k) && #[trigger] offline_at(w2, j, l) && (i != j || k != l)
        implies offline_id(w2, i, k) != offline_id(w2, j, l) by {
        assert(offline_at(w, pmap(i), kmap(i, k)));
        assert(offline_at(w, pmap(j), kmap(j, l)));
    }
    assert forall|i: int, k: int, c: int|
        #[trigger] offline_at(w2, i, k) && 0 <= c < w2.characters.len()
        implies offline_id(w2, i, k) != (#[trigger] w2.characters[c]).character_id by {
        assert(offline_at(w, pmap(i), kmap(i, k)));
        assert(0 <= cmap(c) < w.characters.len());
        assert(offline_id(w, pmap(i), kmap(i, k)) != w.characters[cmap(c)].character_id);
    }
}

/// The party bookkeeping is consistent:
/// - entities of parties and of characters are unique;
/// - every party has from two members up to the maximum, its online members
///   are distinct, and its owner is one of them;
/// - a character belongs to a party exactly when that party lists it online.
pub open spec fn party_world_wf(w: PartyWorldModel) -> bool {
    &&& character_ids_ok(w)
    &&& forall|i: int, j: int| 0 <= i < w.parties.len() && 0 <= j < w.parties.len() && i != j
        ==> (#[trigger] w.parties[i]).entity != (#[trigger] w.parties[j]).entity
    &&& forall|i: int, j: int| 0 <= i < w.characters.len() && 0 <= j < w.characters.len() && i != j
        ==> (#[trigger] w.characters[i]).entity != (#[trigger] w.characters[j]).entity
    &&& forall|i: int| 0 <= i < w.parties.len() ==> {
        let p = #[trigger] w.parties[i];
        &&& 2 <= p.members.len() <= PARTY_MAX_MEMBERS
        &&& is_online_member(p, p.owner)
        &&& forall|a: int, b: int| 0 <= a < p.members.len() && 0 <= b < p.members.len() && a != b
            && (#[trigger] p.members[a]) is Online ==> #[trigger] p.members[b] != p.members[a]
    }
    &&& forall|i: int, k: int| 0 <= i < w.parties.len() && 0 <= k < w.parties[i].members.len()
        && (#[trigger] w.parties[i].members[k]) is Online ==>
            exists|c: int| 0 <= c < w.characters.len()
                && (#[trigger] w.characters[c]).entity == w.parties[i].members[k]->Online_0
                && w.characters[c].party_membership == Some(w.parties[i].entity)
    &&& forall|c: int| 0 <= c < w.characters.len() && (#[trigger] w.characters[c]).party_membership is Some ==>
        exists|i: int| 0 <= i < w.parties.len()
            && (#[trigger] w.parties[i]).entity == w.characters[c].party_membership->0
            && is_online_member(w.parties[i], w.characters[c].entity)
}

pub open spec fn character_index(w: PartyWorldModel, entity: u64, i: int) -> bool {
    0 <= i < w.characters.len() && w.characters[i].entity == entity
}

pub open spec fn party_index(w: PartyWorldModel, entity: u64, i: int) -> bool {
    0 <= i < w.parties.len() && w.parties[i].entity == entity
}

pub open spec fn has_character(w: PartyWorldModel, entity: u64) -> bool {
    exists|i: int| character_index(w, entity, i)
}

/// The party of a connected character, if it has one.
pub open spec fn membership_of(w: PartyWorldModel, entity: u64) -> Option<u64> {
    if has_character(w, entity) {
        w.characters[choose|i: int| character_index(w, entity, i)].party_membership
    } else {
        None
    }
}

proof fn lemma_character_index_unique(w: PartyWorldModel, entity: u64, i: int, j: int)
    requires
        party_world_wf(w),
        character_index(w, entity, i),
        character_index(w, entity, j),
    ensures
        i == j,
{
    if i != j {
        assert(w.characters[i].entity != w.characters[j].entity);
    }
}

proof fn lemma_party_index_unique(w: PartyWorldModel, entity: u64, i: int, j: int)
    requires
        party_world_wf(w),
        party_index(w, entity, i),
        party_index(w, entity, j),
    ensures
        i == j,
{
    if i != j {
        assert(w.parties[i].entity != w.parties[j].entity);
    }
}

impl PartyWorld {
    pub fn find_character(&self, entity: u64) -> (result: Option<usize>)
        ensures
            match result {
                Some(i) => character_index(self@, entity, i as int),
                None => !has_character(self@, entity),
            },
    {
        let mut i: usize = 0;
        while i < self.characters.len()
            invariant
                i <= self.characters.len(),
                forall|j: int| 0 <= j < i ==> !character_index(self@, entity, j),
            decreases self.characters.len() - i,
        {
            if self.characters[i].entity == entity {
                return Some(i);
            }
            i += 1;
        }
        None
    }

    pub fn find_party(&self, entity: u64) -> (result: Option<usize>)
        ensures
            match result {
                Some(i) => party_index(self@, entity, i as int),
                None => forall|j: int| !party_index(self@, entity, j),
            },
    {
        let mut i: usize = 0;
        while i < self.parties.len()
            invariant
                i <= self.parties.len(),
                forall|j: int| 0 <= j < i ==> !party_index(self@, entity, j),
            decreases self.parties.len() - i,
        {
            if self.parties[i].entity == entity {
                return Some(i);
            }
            i += 1;
        }
        None
    }
}

/// Why a party invitation was refused.
#[derive(Clone, Copy, Debug, PartialEq, Eq, Structural)]
pub enum PartyInviteError {
    AlreadyHasParty,
    NoPermission,
    PartyFull,
    InvalidEntity,
}

/// What an invited character is told.
#[derive(Clone, Copy, Debug, PartialEq, Eq, Structural)]
pub enum PartyInviteMessage {
    /// The inviter has no party yet: accepting creates one.
    Create,
    /// The inviter is in a party: accepting joins it.
    Invite,
}

/// An invitation from `owner_entity` to `invited_entity`: both must be
/// distinct connected characters and the invited one must not be in a
/// party. Nothing changes; the result says which offer is sent.
pub fn handle_party_invite(world: &PartyWorld, owner_entity: u64, invited_entity: u64) -> (result: Result<PartyInviteMessage, PartyInviteError>)
    requires
        party_world_wf(world@),
    ensures
        (owner_entity == invited_entity || !has_character(world@, owner_entity) || !has_character(world@, invited_entity))
            ==> result == Err::<PartyInviteMessage, PartyInviteError>(PartyInviteError::InvalidEntity),
        (owner_entity != invited_entity && has_character(world@, owner_entity) && has_character(world@, invited_entity)) ==> {
            if membership_of(world@, invited_entity) is Some {
                result == Err::<PartyInviteMessage, PartyInviteError>(PartyInviteError::AlreadyHasParty)
            } else if membership_of(world@, owner_entity) is None {
                result == Ok::<PartyInviteMessage, PartyInviteError>(PartyInviteMessage::Create)
            } else {
                result == Ok::<PartyInviteMessage, PartyInviteError>(PartyInviteMessage::Invite)
            }
        },
{
    if owner_entity == invited_entity {
        return Err(PartyInviteError::InvalidEntity);
    }
    let owner_index = match world.find_character(owner_entity) {
        Some(i) => i,
        None => return Err(PartyInviteError::InvalidEntity),
    };
    let invited_index = match world.find_character(invited_entity) {
        Some(i) => i,
        None => return Err(PartyInviteError::InvalidEntity),
    };
    proof {
        lemma_character_index_unique(world@, owner_entity, owner_index as int, choose|i: int| character_index(world@, owner_entity, i));
        lemma_character_index_unique(world@, invited_entity, invited_index as int, choose|i: int| character_index(world@, invited_entity, i));
    }
    if world.characters[invited_index].party_membership.is_some() {
        return Err(PartyInviteError::AlreadyHasParty);
    }
    if world.characters[owner_index].party_membership.is_none() {
        Ok(PartyInviteMessage::Create)
    } else {
        Ok(PartyInviteMessage::Invite)
    }
}

/// The character at index `i` with its party membership replaced.
pub open spec fn with_membership(w: PartyWorldModel, i: int, membership: Option<u64>) -> PartyWorldModel {
    PartyWorldModel {
        characters: w.characters.update(i, PartyCharacterModel { party_membership: membership, ..w.characters[i] }),
        ..w
    }
}

/// A new party of two: the owner and the invited, both online.
pub open spec fn new_party(entity: u64, owner: u64, invited: u64) -> PartyModel {
    PartyModel {
        entity,
        owner,
        members: seq![PartyMemberModel::Online(owner), PartyMemberModel::Online(invited)],
        item_sharing: PartyItemSharing::EqualLootDistribution,
        xp_sharing: PartyXpSharing::EqualShare,
        average_member_level: 0,
    }
}

impl PartyWorld {
    fn set_membership(&mut self, i: usize, membership: Option<u64>)
        requires
            i < old(self).characters.len(),
        ensures
            final(self)@ == with_membership(old(self)@, i as int, membership),
            final(self).characters.len() == old(self).characters.len(),
            final(self).parties@ == old(self).parties@,
    {
        let mut c = PartyMembershipQuery { entity: 0, character_id: 0, name: String::new(), party_membership: None };
        self.characters.set_and_swap(i, &mut c);
        c.party_membership = membership;
        self.characters.set(i, c);
        assert(self@.characters =~= with_membership(old(self)@, i as int, membership).characters);
        assert(self@.parties =~= old(self)@.parties);
    }
}

/// A character without a party is listed online by no party.
proof fn lemma_no_membership_not_online(w: PartyWorldModel, c: int, pi: int)
    requires
        party_world_wf(w),
        0 <= c < w.characters.len(),
        w.characters[c].party_membership is None,
        0 <= pi < w.parties.len(),
    ensures
        !is_online_member(w.parties[pi], w.characters[c].entity),
{
    if is_online_member(w.parties[pi], w.characters[c].entity) {
        let k = choose|k: int| 0 <= k < w.parties[pi].members.len() && w.parties[pi].members[k] == PartyMemberModel::Online(w.characters[c].entity);
        assert(w.parties[pi].members[k] is Online);
        let c2 = choose|c2: int| 0 <= c2 < w.characters.len()
            && (#[trigger] w.characters[c2]).entity == w.parties[pi].members[k]->Online_0
            && w.characters[c2].party_membership == Some(w.parties[pi].entity);
        assert(c2 != c);
        assert(w.characters[c2].entity != w.characters[c].entity);
    }
}

proof fn lemma_create_party_wf(w: PartyWorldModel, oi: int, ii: int, party_entity: u64)
    requires
        party_world_wf(w),
        0 <= oi < w.characters.len(),
        0 <= ii < w.characters.len(),
        oi != ii,
        w.characters[oi].party_membership is None,
        w.characters[ii].party_membership is None,
        forall|j: int| 0 <= j < w.parties.len() ==> w.parties[j].entity != party_entity,
    ensures
        party_world_wf(PartyWorldModel {
            parties: w.parties.push(new_party(party_entity, w.characters[oi].entity, w.characters[ii].entity)),
            ..with_membership(with_membership(w, oi, Some(party_entity)), ii, Some(party_entity))
        }),
{
    let owner = w.characters[oi].entity;
    let invited = w.characters[ii].entity;
    let np = new_party(party_entity, owner, invited);
    let w2 = PartyWorldModel {
        parties: w.parties.push(np),
        ..with_membership(with_membership(w, oi, Some(party_entity)), ii, Some(party_entity))
    };
    assert(owner != invited);
    assert(w2.characters.len() == w.characters.len());
    assert forall|i: int, k: int| #[trigger] offline_at(w2, i, k) implies
        offline_at(w, i, k) && offline_id(w, i, k) == offline_id(w2, i, k) by {
        if i == w.parties.len() {
            assert(np.members[k] is Online);
        } else {
            assert(w2.parties[i] == w.parties[i]);
        }
    }
    lemma_ids_transfer(w, w2, |c: int| c, |i: int| i, |i: int, k: int| k);
    assert forall|c: int| 0 <= c < w.characters.len() implies (#[trigger] w2.characters[c]).entity == w.characters[c].entity by {}
    assert(is_online_member(np, owner)) by { assert(np.members[0] == PartyMemberModel::Online(owner)); }
    assert(is_online_member(np, invited)) by { assert(np.members[1] == PartyMemberModel::Online(invited)); }
    // online members of every party have a character that belongs to it
    assert forall|i: int, k: int| 0 <= i < w2.parties.len() && 0 <= k < w2.parties[i].members.len()
        && (#[trigger] w2.parties[i].members[k]) is Online implies
            exists|c: int| 0 <= c < w2.characters.len()
                && (#[trigger] w2.characters[c]).entity == w2.parties[i].members[k]->Online_0
                && w2.characters[c].party_membership == Some(w2.parties[i].entity) by {
        if i == w.parties.len() {
            if k == 0 {
                assert(w2.characters[oi].entity == owner);
            } else {
                assert(w2.characters[ii].entity == invited);
            }
        } else {
            assert(w.parties[i].members[k] is Online);
            let c = choose|c: int| 0 <= c < w.characters.len()
                && (#[trigger] w.characters[c]).entity == w.parties[i].members[k]->Online_0
                && w.characters[c].party_membership == Some(w.parties[i].entity);
            assert(c != oi && c != ii);
            assert(w2.characters[c] == w.characters[c]);
        }
    }
    // every member character is listed online by its party
    assert forall|c: int| 0 <= c < w2.characters.len() && (#[trigger] w2.characters[c]).party_membership is Some implies
        exists|i: int| 0 <= i < w2.parties.len()
            && (#[trigger] w2.parties[i]).entity == w2.characters[c].party_membership->0
            && is_online_member(w2.parties[i], w2.characters[c].entity) by {
        if c == oi || c == ii {
            assert(w2.parties[w.parties.len() as int] == np);
        } else {
            assert(w2.characters[c] == w.characters[c]);
            let i = choose|i: int| 0 <= i < w.parties.len()
                && (#[trigger] w.parties[i]).entity == w.characters[c].party_membership->0
                && is_online_member(w.parties[i], w.characters[c].entity);
            assert(w2.parties[i] == w.parties[i]);
        }
    }
    assert forall|i: int, j: int| 0 <= i < w2.parties.len() && 0 <= j < w2.parties.len() && i != j
        implies (#[trigger] w2.parties[i]).entity != (#[trigger] w2.parties[j]).entity by {}
    assert forall|i: int, j: int| 0 <= i < w2.characters.len() && 0 <= j < w2.characters.len() && i != j
        implies (#[trigger] w2.characters[i]).entity != (#[trigger] w2.characters[j]).entity by {
        assert(w2.characters[i].entity == w.characters[i].entity);
        assert(w2.characters[j].entity == w.characters[j].entity);
    }
    assert forall|i: int| 0 <= i < w2.parties.len() implies {
        let p = #[trigger] w2.parties[i];
        &&& 2 <= p.members.len() <= PARTY_MAX_MEMBERS
        &&& is_online_member(p, p.owner)
        &&& forall|a: int, b: int| 0 <= a < p.members.len() && 0 <= b < p.members.len() && a != b
            && (#[trigger] p.members[a]) is Online ==> #[trigger] p.members[b] != p.members[a]
    } by {
        if i < w.parties.len() {
            assert(w2.parties[i] == w.parties[i]);
        }
    }
}

/// The party at index `pi` with one more member.
pub open spec fn with_party(w: PartyWorldModel, pi: int, p: PartyModel) -> PartyWorldModel {
    PartyWorldModel { parties: w.parties.update(pi, p), ..w }
}

proof fn lemma_join_party_wf(w: PartyWorldModel, pi: int, ii: int)
    requires
        party_world_wf(w),
        0 <= pi < w.parties.len(),
        0 <= ii < w.characters.len(),
        w.characters[ii].party_membership is None,
        w.parties[pi].members.len() < PARTY_MAX_MEMBERS,
    ensures
        party_world_wf(with_party(with_membership(w, ii, Some(w.parties[pi].entity)), pi,
            PartyModel { members: w.parties[pi].members.push(PartyMemberModel::Online(w.characters[ii].entity)), ..w.parties[pi] })),
{
    let invited = w.characters[ii].entity;
    let pe = w.parties[pi].entity;
    let op = w.parties[pi];
    let np = PartyModel { members: op.members.push(PartyMemberModel::Online(invited)), ..op };
    let w2 = with_party(with_membership(w, ii, Some(pe)), pi, np);
    assert forall|i: int, k: int| #[trigger] offline_at(w2, i, k) implies
        offline_at(w, i, k) && offline_id(w, i, k) == offline_id(w2, i, k) by {
        if i == pi {
            assert(k < op.members.len());
            assert(np.members[k] == op.members[k]);
        } else {
            assert(w2.parties[i] == w.parties[i]);
        }
    }
    lemma_ids_transfer(w, w2, |c: int| c, |i: int| i, |i: int, k: int| k);
    assert forall|c: int| 0 <= c < w.characters.len() implies (#[trigger] w2.characters[c]).entity == w.characters[c].entity by {}
    assert forall|j: int| 0 <= j < w.parties.len() implies !is_online_member(w.parties[j], invited) by {
        lemma_no_membership_not_online(w, ii, j);
    }
    assert(is_online_member(np, op.owner)) by {
        let k = choose|k: int| 0 <= k < op.members.len() && op.members[k] == PartyMemberModel::Online(op.owner);
        assert(np.members[k] == op.members[k]);
    }
    assert(is_online_member(np, invited)) by { assert(np.members[op.members.len() as int] == PartyMemberModel::Online(invited)); }
    assert forall|a: int, b: int| 0 <= a < np.members.len() && 0 <= b < np.members.len() && a != b
        && (#[trigger] np.members[a]) is Online implies #[trigger] np.members[b] != np.members[a] by {
        let n = op.members.len() as int;
        if a == n {
            if np.members[b] == np.members[a] {
                assert(op.members[b] == PartyMemberModel::Online(invited));
            }
        } else if b == n {
            if np.members[b] == np.members[a] {
                assert(op.members[a] == PartyMemberModel::Online(invited));
            }
        } else {
            assert(np.members[a] == op.members[a] && np.members[b] == op.members[b]);
        }
    }
    assert forall|i: int, k: int| 0 <= i < w2.parties.len() && 0 <= k < w2.parties[i].members.len()
        && (#[trigger] w2.parties[i].members[k]) is Online implies
            exists|c: int| 0 <= c < w2.characters.len()
                && (#[trigger] w2.characters[c]).entity == w2.parties[i].members[k]->Online_0
                && w2.characters[c].party_membership == Some(w2.parties[i].entity) by {
        if i == pi && k == op.members.len() {
            assert(w2.characters[ii].entity == invited);
        } else {
            assert(w2.parties[i].members[k] == w.parties[i].members[k]);
            assert(w.parties[i].members[k] is Online);
            let c = choose|c: int| 0 <= c < w.characters.len()
                && (#[trigger] w.characters[c]).entity == w.parties[i].members[k]->Online_0
                && w.characters[c].party_membership == Some(w.parties[i].entity);
            assert(c != ii);
            assert(w2.characters[c] == w.characters[c]);
        }
    }
    assert forall|c: int| 0 <= c < w2.characters.len() && (#[trigger] w2.characters[c]).party_membership is Some implies
        exists|i: int| 0 <= i < w2.parties.len()
            && (#[trigger] w2.parties[i]).entity == w2.characters[c].party_membership->0
            && is_online_member(w2.parties[i], w2.characters[c].entity) by {
        if c == ii {
            assert(w2.parties[pi] == np);
        } else {
            assert(w2.characters[c] == w.characters[c]);
            let i = choose|i: int| 0 <= i < w.parties.len()
                && (#[trigger] w.parties[i]).entity == w.characters[c].party_membership->0
                && is_online_member(w.parties[i], w.characters[c].entity);
            if i == pi {
                let k = choose|k: int| 0 <= k < op.members.len() && op.members[k] == PartyMemberModel::Online(w.characters[c].entity);
                assert(np.members[k] == op.members[k]);
            } else {
                assert(w2.parties[i] == w.parties[i]);
            }
        }
    }
    assert forall|i: int, j: int| 0 <= i < w2.parties.len() && 0 <= j < w2.parties.len() && i != j
        implies (#[trigger] w2.parties[i]).entity != (#[trigger] w2.parties[j]).entity by {
        assert(w2.parties[i].entity == w.parties[i].entity);
        assert(w2.parties[j].entity == w.parties[j].entity);
    }
    assert forall|i: int, j: int| 0 <= i < w2.characters.len() && 0 <= j < w2.characters.len() && i != j
        implies (#[trigger] w2.characters[i]).entity != (#[trigger] w2.characters[j]).entity by {
        assert(w2.characters[i].entity == w.characters[i].entity);
        assert(w2.characters[j].entity == w.characters[j].entity);
    }
    assert forall|i: int| 0 <= i < w2.parties.len() implies {
        let p = #[trigger] w2.parties[i];
        &&& 2 <= p.members.len() <= PARTY_MAX_MEMBERS
        &&& is_online_member(p, p.owner)
        &&& forall|a: int, b: int| 0 <= a < p.members.len() && 0 <= b < p.members.len() && a != b
            && (#[trigger] p.members[a]) is Online ==> #[trigger] p.members[b] != p.members[a]
    } by {
        if i != pi {
            assert(w2.parties[i] == w.parties[i]);
        }
    }
}

pub open spec fn char_idx(w: PartyWorldModel, entity: u64) -> int {
    choose|i: int| character_index(w, entity, i)
}

pub open spec fn party_idx(w: PartyWorldModel, entity: u64) -> int {
    choose|i: int| party_index(w, entity, i)
}

/// The meaning of accepting an invitation: the invited character joins the
/// inviter's party, or a new party of the two is made.
pub open spec fn spec_accept_invite(w: PartyWorldModel, owner: u64, invited: u64, new_party_entity: u64)
    -> (PartyWorldModel, Result<(), PartyInviteError>)
{
    if owner == invited || !has_character(w, owner) || !has_character(w, invited) {
        (w, Err(PartyInviteError::InvalidEntity))
    } else if membership_of(w, invited) is Some {
        (w, Err(PartyInviteError::AlreadyHasParty))
    } else if membership_of(w, owner) is None {
        (PartyWorldModel {
            parties: w.parties.push(new_party(new_party_entity, owner, invited)),
            ..with_membership(with_membership(w, char_idx(w, owner), Some(new_party_entity)), char_idx(w, invited), Some(new_party_entity))
        }, Ok(()))
    } else {
        let pi = party_idx(w, membership_of(w, owner)->0);
        let p = w.parties[pi];
        if p.owner != owner {
            (w, Err(PartyInviteError::NoPermission))
        } else if p.members.len() >= PARTY_MAX_MEMBERS {
            (w, Err(PartyInviteError::PartyFull))
        } else {
            (with_party(with_membership(w, char_idx(w, invited), Some(p.entity)), pi,
                PartyModel { members: p.members.push(PartyMemberModel::Online(invited)), ..p }), Ok(()))
        }
    }
}

/// The invited character accepts the invitation of `owner_entity`.
/// `new_party_entity` is the entity a new party would get.
pub fn handle_party_accept_invite(world: &mut PartyWorld, owner_entity: u64, invited_entity: u64, new_party_entity: u64)
    -> (result: Result<(), PartyInviteError>)
    requires
        party_world_wf(old(world)@),
        forall|j: int| 0 <= j < old(world)@.parties.len() ==> old(world)@.parties[j].entity != new_party_entity,
    ensures
        party_world_wf(final(world)@),
        (final(world)@, result) == spec_accept_invite(old(world)@, owner_entity, invited_entity, new_party_entity),
{
    let ghost w = world@;
    if owner_entity == invited_entity {
        return Err(PartyInviteError::InvalidEntity);
    }
    let oi = match world.find_character(owner_entity) {
        Some(i) => i,
        None => return Err(PartyInviteError::InvalidEntity),
    };
    let ii = match world.find_character(invited_entity) {
        Some(i) => i,
        None => return Err(PartyInviteError::InvalidEntity),
    };
    proof {
        lemma_character_index_unique(w, owner_entity, oi as int, char_idx(w, owner_entity));
        lemma_character_index_unique(w, invited_entity, ii as int, char_idx(w, invited_entity));
    }
    if world.characters[ii].party_membership.is_some() {
        return Err(PartyInviteError::AlreadyHasParty);
    }
    match world.characters[oi].party_membership {
        None => {
            proof { lemma_create_party_wf(w, oi as int, ii as int, new_party_entity); }
            world.set_membership(oi, Some(new_party_entity));
            world.set_membership(ii, Some(new_party_entity));
            let mut members: Vec<PartyMember> = Vec::new();
            members.push(PartyMember::Online(owner_entity));
            members.push(PartyMember::Online(invited_entity));
            let party = Party {
                entity: new_party_entity,
                owner: owner_entity,
                members,
                item_sharing: PartyItemSharing::EqualLootDistribution,
                xp_sharing: PartyXpSharing::EqualShare,
                average_member_level: 0,
            };
            let ghost before = world@;
            world.parties.push(party);
            assert(party@.members =~= new_party(new_party_entity, owner_entity, invited_entity).members);
            assert(world@.parties =~= before.parties.push(new_party(new_party_entity, owner_entity, invited_entity)));
            assert(world@.characters =~= before.characters);
            Ok(())
        },
        Some(party_entity) => {
            let pi = match world.find_party(party_entity) {
                Some(i) => i,
                None => {
                    proof {
                        let c = oi as int;
                        assert(w.characters[c].party_membership is Some);
                        let j = choose|j: int| 0 <= j < w.parties.len()
                            && (#[trigger] w.parties[j]).entity == w.characters[c].party_membership->0
                            && is_online_member(w.parties[j], w.characters[c].entity);
                        assert(party_index(w, party_entity, j));
                    }
                    return Err(PartyInviteError::InvalidEntity);
                },
            };
            proof {
                lemma_party_index_unique(w, party_entity, pi as int, party_idx(w, party_entity));
            }
            if world.parties[pi].owner != owner_entity {
                return Err(PartyInviteError::NoPermission);
            }
            if world.parties[pi].members.len() >= PARTY_MAX_MEMBERS {
                return Err(PartyInviteError::PartyFull);
            }
            proof { lemma_join_party_wf(w, pi as int, ii as int); }
            world.set_membership(ii, Some(party_entity));
            let mut party = Party {
                entity: 0, owner: 0, members: Vec::new(),
                item_sharing: PartyItemSharing::EqualLootDistribution,
                xp_sharing: PartyXpSharing::EqualShare,
                average_member_level: 0,
            };
            let ghost before = world@;
            world.parties.set_and_swap(pi, &mut party);
            party.members.push(PartyMember::Online(invited_entity));
            world.parties.set(pi, party);
            assert(world@.parties[pi as int].members =~= before.parties[pi as int].members.push(PartyMemberModel::Online(invited_entity)));
            assert(world@.parties =~= before.parties.update(pi as int,
                PartyModel { members: before.parties[pi as int].members.push(PartyMemberModel::Online(invited_entity)), ..before.parties[pi as int] }));
            assert(world@.characters =~= before.characters);
            Ok(())
        },
    }
}

/// The party a member character belongs to exists.
proof fn lemma_membership_party_exists(w: PartyWorldModel, c: int)
    requires
        party_world_wf(w),
        0 <= c < w.characters.len(),
        w.characters[c].party_membership is Some,
    ensures
        party_index(w, w.characters[c].party_membership->0, party_idx(w, w.characters[c].party_membership->0)),
        is_online_member(w.parties[party_idx(w, w.characters[c].party_membership->0)], w.characters[c].entity),
{
    let j = choose|j: int| 0 <= j < w.parties.len()
        && (#[trigger] w.parties[j]).entity == w.characters[c].party_membership->0
        && is_online_member(w.parties[j], w.characters[c].entity);
    assert(party_index(w, w.characters[c].party_membership->0, j));
    lemma_party_index_unique(w, w.characters[c].party_membership->0, j, party_idx(w, w.characters[c].party_membership->0));
}

/// Changing only fields of a party other than its members and owner keeps
/// the bookkeeping consistent, as does making another online member owner.
proof fn lemma_party_same_members_wf(w: PartyWorldModel, pi: int, p: PartyModel)
    requires
        party_world_wf(w),
        0 <= pi < w.parties.len(),
        p.entity == w.parties[pi].entity,
        p.members == w.parties[pi].members,
        is_online_member(p, p.owner),
    ensures
        party_world_wf(with_party(w, pi, p)),
{
    let w2 = with_party(w, pi, p);
    assert forall|i: int, k: int| #[trigger] offline_at(w2, i, k) implies
        offline_at(w, i, k) && offline_id(w, i, k) == offline_id(w2, i, k) by {
        assert(w2.parties[i].members == w.parties[i].members);
    }
    lemma_ids_transfer(w, w2, |c: int| c, |i: int| i, |i: int, k: int| k);
    assert forall|i: int, k: int| 0 <= i < w2.parties.len() && 0 <= k < w2.parties[i].members.len()
        && (#[trigger] w2.parties[i].members[k]) is Online implies
            exists|c: int| 0 <= c < w2.characters.len()
                && (#[trigger] w2.characters[c]).entity == w2.parties[i].members[k]->Online_0
                && w2.characters[c].party_membership == Some(w2.parties[i].entity) by {
        assert(w2.parties[i].members[k] == w.parties[i].members[k]);
        assert(w.parties[i].members[k] is Online);
    }
    assert forall|c: int| 0 <= c < w2.characters.len() && (#[trigger] w2.characters[c]).party_membership is Some implies
        exists|i: int| 0 <= i < w2.parties.len()
            && (#[trigger] w2.parties[i]).entity == w2.characters[c].party_membership->0
            && is_online_member(w2.parties[i], w2.characters[c].entity) by {
        let i = choose|i: int| 0 <= i < w.parties.len()
            && (#[trigger] w.parties[i]).entity == w.characters[c].party_membership->0
            && is_online_member(w.parties[i], w.characters[c].entity);
        if i == pi {
            assert(w2.parties[i].members == w.parties[i].members);
        }
    }
    assert forall|i: int, j: int| 0 <= i < w2.parties.len() && 0 <= j < w2.parties.len() && i != j
        implies (#[trigger] w2.parties[i]).entity != (#[trigger] w2.parties[j]).entity by {
        assert(w2.parties[i].entity == w.parties[i].entity);
        assert(w2.parties[j].entity == w.parties[j].entity);
    }
    assert forall|i: int| 0 <= i < w2.parties.len() implies {
        let q = #[trigger] w2.parties[i];
        &&& 2 <= q.members.len() <= PARTY_MAX_MEMBERS
        &&& is_online_member(q, q.owner)
        &&& forall|a: int, b: int| 0 <= a < q.members.len() && 0 <= b < q.members.len() && a != b
            && (#[trigger] q.members[a]) is Online ==> #[trigger] q.members[b] != q.members[a]
    } by {
        if i != pi {
            assert(w2.parties[i] == w.parties[i]);
        } else {
            assert(w.parties[pi].members == p.members);
        }
    }
}

impl PartyWorld {
    fn replace_party_header(&mut self, pi: usize, owner: u64, item_sharing: PartyItemSharing, xp_sharing: PartyXpSharing)
        requires
            pi < old(self).parties.len(),
        ensures
            final(self)@ == with_party(old(self)@, pi as int, PartyModel {
                owner, item_sharing, xp_sharing, ..old(self)@.parties[pi as int] }),
    {
        let mut party = Party {
            entity: 0, owner: 0, members: Vec::new(),
            item_sharing: PartyItemSharing::EqualLootDistribution,
            xp_sharing: PartyXpSharing::EqualShare,
            average_member_level: 0,
        };
        let ghost before = self@;
        self.parties.set_and_swap(pi, &mut party);
        party.owner = owner;
        party.item_sharing = item_sharing;
        party.xp_sharing = xp_sharing;
        self.parties.set(pi, party);
        assert(self@.parties =~= with_party(before, pi as int, PartyModel {
                owner, item_sharing, xp_sharing, ..before.parties[pi as int] }).parties);
        assert(self@.characters =~= before.characters);
    }
}

/// Why a change of party owner was refused.
#[derive(Clone, Copy, Debug, PartialEq, Eq, Structural)]
pub enum PartyChangeOwnerError {
    InvalidEntity,
    NotOwner,
    NotInParty,
    InvalidNewOwnerEntity,
}

/// The meaning of handing the party over to another member.
pub open spec fn spec_change_owner(w: PartyWorldModel, owner: u64, new_owner: u64) -> (PartyWorldModel, Result<(), PartyChangeOwnerError>) {
    if owner == new_owner || !has_character(w, owner) || !has_character(w, new_owner) {
        (w, Err(PartyChangeOwnerError::InvalidEntity))
    } else if membership_of(w, owner) is None {
        (w, Err(PartyChangeOwnerError::NotInParty))
    } else if membership_of(w, new_owner) != membership_of(w, owner) {
        (w, Err(PartyChangeOwnerError::InvalidNewOwnerEntity))
    } else {
        let pi = party_idx(w, membership_of(w, owner)->0);
        if w.parties[pi].owner != owner {
            (w, Err(PartyChangeOwnerError::NotOwner))
        } else {
            (with_party(w, pi, PartyModel { owner: new_owner, ..w.parties[pi] }), Ok(()))
        }
    }
}

/// The owner of a party hands it over to another member of the same party.
pub fn handle_party_change_owner(world: &mut PartyWorld, owner_entity: u64, new_owner_entity: u64) -> (result: Result<(), PartyChangeOwnerError>)
    requires
        party_world_wf(old(world)@),
    ensures
        party_world_wf(final(world)@),
        (final(world)@, result) == spec_change_owner(old(world)@, owner_entity, new_owner_entity),
{
    let ghost w = world@;
    if owner_entity == new_owner_entity {
        return Err(PartyChangeOwnerError::InvalidEntity);
    }
    let oi = match world.find_character(owner_entity) {
        Some(i) => i,
        None => return Err(PartyChangeOwnerError::InvalidEntity),
    };
    let ni = match world.find_character(new_owner_entity) {
        Some(i) => i,
        None => return Err(PartyChangeOwnerError::InvalidEntity),
    };
    proof {
        lemma_character_index_unique(w, owner_entity, oi as int, char_idx(w, owner_entity));
        lemma_character_index_unique(w, new_owner_entity, ni as int, char_idx(w, new_owner_entity));
    }
    let party_entity = match world.characters[oi].party_membership {
        Some(e) => e,
        None => return Err(PartyChangeOwnerError::NotInParty),
    };
    match world.characters[ni].party_membership {
        Some(e) => {
            if e != party_entity {
                return Err(PartyChangeOwnerError::InvalidNewOwnerEntity);
            }
        },
        None => return Err(PartyChangeOwnerError::InvalidNewOwnerEntity),
    }
    proof {
        lemma_membership_party_exists(w, oi as int);
        lemma_membership_party_exists(w, ni as int);
    }
    let pi = world.find_party(party_entity).unwrap();
    proof { lemma_party_index_unique(w, party_entity, pi as int, party_idx(w, party_entity)); }
    if world.parties[pi].owner != owner_entity {
        return Err(PartyChangeOwnerError::NotOwner);
    }
    let item_sharing = world.parties[pi].item_sharing;
    let xp_sharing = world.parties[pi].xp_sharing;
    proof {
        lemma_party_same_members_wf(w, pi as int, PartyModel { owner: new_owner_entity, ..w.parties[pi as int] });
    }
    world.replace_party_header(pi, new_owner_entity, item_sharing, xp_sharing);
    Ok(())
}

/// Why a change of party rules was refused.
#[derive(Clone, Copy, Debug, PartialEq, Eq, Structural)]
pub enum PartyUpdateRulesError {
    InvalidEntity,
    NotOwner,
    NotInParty,
}

/// The meaning of changing how a party shares items and experience.
pub open spec fn spec_update_rules(w: PartyWorldModel, owner: u64, item_sharing: PartyItemSharing, xp_sharing: PartyXpSharing)
    -> (PartyWorldModel, Result<(), PartyUpdateRulesError>)
{
    if !has_character(w, owner) {
        (w, Err(PartyUpdateRulesError::InvalidEntity))
    } else if membership_of(w, owner) is None {
        (w, Err(PartyUpdateRulesError::NotInParty))
    } else {
        let pi = party_idx(w, membership_of(w, owner)->0);
        if w.parties[pi].owner != owner {
            (w, Err(PartyUpdateRulesError::NotOwner))
        } else {
            (with_party(w, pi, PartyModel { item_sharing, xp_sharing, ..w.parties[pi] }), Ok(()))
        }
    }
}

/// The owner of a party changes how it shares items and experience.
pub fn handle_party_update_rules(world: &mut PartyWorld, owner_entity: u64, item_sharing: PartyItemSharing, xp_sharing: PartyXpSharing)
    -> (result: Result<(), PartyUpdateRulesError>)
    requires
        party_world_wf(old(world)@),
    ensures
        party_world_wf(final(world)@),
        (final(world)@, result) == spec_update_rules(old(world)@, owner_entity, item_sharing, xp_sharing),
{
    let ghost w = world@;
    let oi = match world.find_character(owner_entity) {
        Some(i) => i,
        None => return Err(PartyUpdateRulesError::InvalidEntity),
    };
    proof { lemma_character_index_unique(w, owner_entity, oi as int, char_idx(w, owner_entity)); }
    let party_entity = match world.characters[oi].party_membership {
        Some(e) => e,
        None => return Err(PartyUpdateRulesError::NotInParty),
    };
    proof { lemma_membership_party_exists(w, oi as int); }
    let pi = world.find_party(party_entity).unwrap();
    proof { lemma_party_index_unique(w, party_entity, pi as int, party_idx(w, party_entity)); }
    if world.parties[pi].owner != owner_entity {
        return Err(PartyUpdateRulesError::NotOwner);
    }
    proof {
        lemma_party_same_members_wf(w, pi as int, PartyModel { item_sharing, xp_sharing, ..w.parties[pi as int] });
    }
    world.replace_party_header(pi, owner_entity, item_sharing, xp_sharing);
    Ok(())
}

/// The party clauses of the bookkeeping for one party.
pub open spec fn party_shape_ok(p: PartyModel) -> bool {
    &&& 2 <= p.members.len() <= PARTY_MAX_MEMBERS
    &&& is_online_member(p, p.owner)
    &&& forall|a: int, b: int| 0 <= a < p.members.len() && 0 <= b < p.members.len() && a != b
        && (#[trigger] p.members[a]) is Online ==> #[trigger] p.members[b] != p.members[a]
}

/// The bookkeeping holds for every party but the one at `pi`, whose
/// members the characters that belong to it need not match.
pub open spec fn party_world_wf_except(w: PartyWorldModel, pi: int) -> bool {
    &&& 0 <= pi < w.parties.len()
    &&& forall|i: int, j: int| 0 <= i < w.parties.len() && 0 <= j < w.parties.len() && i != j
        ==> (#[trigger] w.parties[i]).entity != (#[trigger] w.parties[j]).entity
    &&& forall|i: int, j: int| 0 <= i < w.characters.len() && 0 <= j < w.characters.len() && i != j
        ==> (#[trigger] w.characters[i]).entity != (#[trigger] w.characters[j]).entity
    &&& forall|i: int| 0 <= i < w.parties.len() && i != pi ==> party_shape_ok(#[trigger] w.parties[i])
    &&& forall|i: int, k: int| 0 <= i < w.parties.len() && i != pi && 0 <= k < w.parties[i].members.len()
        && (#[trigger] w.parties[i].members[k]) is Online ==>
            exists|c: int| 0 <= c < w.characters.len()
                && (#[trigger] w.characters[c]).entity == w.parties[i].members[k]->Online_0
                && w.characters[c].party_membership == Some(w.parties[i].entity)
    &&& forall|c: int| 0 <= c < w.characters.len() && (#[trigger] w.characters[c]).party_membership is Some
        && w.characters[c].party_membership != Some(w.parties[pi].entity) ==>
        exists|i: int| 0 <= i < w.parties.len()
            && (#[trigger] w.parties[i]).entity == w.characters[c].party_membership->0
            && is_online_member(w.parties[i], w.characters[c].entity)
}

proof fn lemma_wf_implies_wf_except(w: PartyWorldModel, pi: int)
    requires
        party_world_wf(w),
        0 <= pi < w.parties.len(),
    ensures
        party_world_wf_except(w, pi),
{
    assert forall|i: int| 0 <= i < w.parties.len() && i != pi implies party_shape_ok(#[trigger] w.parties[i]) by {
        let p = w.parties[i];
        assert(2 <= p.members.len() <= PARTY_MAX_MEMBERS);
    }
}

/// Party `pi` meets its clauses again: the world is consistent.
proof fn lemma_wf_except_restore(w: PartyWorldModel, pi: int)
    requires
        party_world_wf_except(w, pi),
        character_ids_ok(w),
        party_shape_ok(w.parties[pi]),
        forall|k: int| 0 <= k < w.parties[pi].members.len() && (#[trigger] w.parties[pi].members[k]) is Online ==>
            exists|c: int| 0 <= c < w.characters.len()
                && (#[trigger] w.characters[c]).entity == w.parties[pi].members[k]->Online_0
                && w.characters[c].party_membership == Some(w.parties[pi].entity),
        forall|c: int| 0 <= c < w.characters.len() && (#[trigger] w.characters[c]).party_membership == Some(w.parties[pi].entity) ==>
            is_online_member(w.parties[pi], w.characters[c].entity),
    ensures
        party_world_wf(w),
{
    assert forall|i: int| 0 <= i < w.parties.len() implies {
        let p = #[trigger] w.parties[i];
        &&& 2 <= p.members.len() <= PARTY_MAX_MEMBERS
        &&& is_online_member(p, p.owner)
        &&& forall|a: int, b: int| 0 <= a < p.members.len() && 0 <= b < p.members.len() && a != b
            && (#[trigger] p.members[a]) is Online ==> #[trigger] p.members[b] != p.members[a]
    } by {
        assert(party_shape_ok(w.parties[i]));
    }
    assert forall|i: int, k: int| 0 <= i < w.parties.len() && 0 <= k < w.parties[i].members.len()
        && (#[trigger] w.parties[i].members[k]) is Online implies
            exists|c: int| 0 <= c < w.characters.len()
                && (#[trigger] w.characters[c]).entity == w.parties[i].members[k]->Online_0
                && w.characters[c].party_membership == Some(w.parties[i].entity) by {
        if i == pi {
            assert(w.parties[pi].members[k] is Online);
        }
    }
    assert forall|c: int| 0 <= c < w.characters.len() && (#[trigger] w.characters[c]).party_membership is Some implies
        exists|i: int| 0 <= i < w.parties.len()
            && (#[trigger] w.parties[i]).entity == w.characters[c].party_membership->0
            && is_online_member(w.parties[i], w.characters[c].entity) by {
        if w.characters[c].party_membership == Some(w.parties[pi].entity) {
            assert(w.parties[pi].entity == w.characters[c].party_membership->0);
        }
    }
}

/// The world without the party at `pi`, whose characters are left without
/// a party.
pub open spec fn spec_delete_party(w: PartyWorldModel, pi: int) -> PartyWorldModel {
    PartyWorldModel {
        parties: w.parties.remove(pi),
        characters: w.characters.map_values(|c: PartyCharacterModel|
            if c.party_membership == Some(w.parties[pi].entity) {
                PartyCharacterModel { party_membership: None, ..c }
            } else {
                c
            }),
    }
}

proof fn lemma_delete_party_wf(w: PartyWorldModel, pi: int)
    requires
        party_world_wf_except(w, pi),
        character_ids_ok(w),
    ensures
        party_world_wf(spec_delete_party(w, pi)),
{
    let pe = w.parties[pi].entity;
    let w2 = spec_delete_party(w, pi);
    assert forall|i: int, k: int| #[trigger] offline_at(w2, i, k) implies
        offline_at(w, if i < pi { i } else { i + 1 }, k)
        && offline_id(w, if i < pi { i } else { i + 1 }, k) == offline_id(w2, i, k) by {
        assert(w2.parties[i] == w.parties[if i < pi { i } else { i + 1 }]);
    }
    lemma_ids_transfer(w, w2, |c: int| c, |i: int| if i < pi { i } else { i + 1 }, |i: int, k: int| k);
    assert forall|c: int| 0 <= c < w.characters.len() implies (#[trigger] w2.characters[c]).entity == w.characters[c].entity by {}
    assert forall|j: int| 0 <= j < w2.parties.len() implies #[trigger] w2.parties[j] == w.parties[if j < pi { j } else { j + 1 }] by {}
    assert forall|i: int, j: int| 0 <= i < w2.parties.len() && 0 <= j < w2.parties.len() && i != j
        implies (#[trigger] w2.parties[i]).entity != (#[trigger] w2.parties[j]).entity by {
        let oi = if i < pi { i } else { i + 1 };
        let oj = if j < pi { j } else { j + 1 };
        assert(w.parties[oi].entity != w.parties[oj].entity);
    }
    assert forall|i: int, j: int| 0 <= i < w2.characters.len() && 0 <= j < w2.characters.len() && i != j
        implies (#[trigger] w2.characters[i]).entity != (#[trigger] w2.characters[j]).entity by {
        assert(w.characters[i].entity != w.characters[j].entity);
    }
    assert forall|i: int| 0 <= i < w2.parties.len() implies {
        let p = #[trigger] w2.parties[i];
        &&& 2 <= p.members.len() <= PARTY_MAX_MEMBERS
        &&& is_online_member(p, p.owner)
        &&& forall|a: int, b: int| 0 <= a < p.members.len() && 0 <= b < p.members.len() && a != b
            && (#[trigger] p.members[a]) is Online ==> #[trigger] p.members[b] != p.members[a]
    } by {
        let oi = if i < pi { i } else { i + 1 };
        assert(party_shape_ok(w.parties[oi]));
    }
    assert forall|i: int, k: int| 0 <= i < w2.parties.len() && 0 <= k < w2.parties[i].members.len()
        && (#[trigger] w2.parties[i].members[k]) is Online implies
            exists|c: int| 0 <= c < w2.characters.len()
                && (#[trigger] w2.characters[c]).entity == w2.parties[i].members[k]->Online_0
                && w2.characters[c].party_membership == Some(w2.parties[i].entity) by {
        let oi = if i < pi { i } else { i + 1 };
        assert(w.parties[oi].members[k] is Online);
        let c = choose|c: int| 0 <= c < w.characters.len()
            && (#[trigger] w.characters[c]).entity == w.parties[oi].members[k]->Online_0
            && w.characters[c].party_membership == Some(w.parties[oi].entity);
        assert(w.parties[oi].entity != pe);
        assert(w2.characters[c] == w.characters[c]);
    }
    assert forall|c: int| 0 <= c < w2.characters.len() && (#[trigger] w2.characters[c]).party_membership is Some implies
        exists|i: int| 0 <= i < w2.parties.len()
            && (#[trigger] w2.parties[i]).entity == w2.characters[c].party_membership->0
            && is_online_member(w2.parties[i], w2.characters[c].entity) by {
        assert(w2.characters[c] == w.characters[c]);
        assert(w.characters[c].party_membership != Some(pe));
        let oi = choose|i: int| 0 <= i < w.parties.len()
            && (#[trigger] w.parties[i]).entity == w.characters[c].party_membership->0
            && is_online_member(w.parties[i], w.characters[c].entity);
        assert(oi != pi);
        let ni = if oi < pi { oi } else { oi - 1 };
        assert(w2.parties[ni] == w.parties[oi]);
    }
}

impl PartyWorld {
    /// Removes the party at `pi`; its characters are left without a party.
    fn delete_party(&mut self, pi: usize)
        requires
            pi < old(self).parties.len(),
        ensures
            final(self)@ == spec_delete_party(old(self)@, pi as int),
    {
        let ghost w = self@;
        let party_entity = self.parties[pi].entity;
        let mut c: usize = 0;
        while c < self.characters.len()
            invariant
                c <= self.characters.len(),
                self.parties@ == old(self).parties@,
                self@.parties == w.parties,
                self.characters.len() == w.characters.len(),
                party_entity == w.parties[pi as int].entity,
                pi < w.parties.len(),
                forall|k: int| 0 <= k < c ==> #[trigger] self@.characters[k] == spec_delete_party(w, pi as int).characters[k],
                forall|k: int| c <= k < self.characters.len() ==> #[trigger] self@.characters[k] == w.characters[k],
            decreases self.characters.len() - c,
        {
            if self.characters[c].party_membership == Some(party_entity) {
                let ghost before = self@;
                self.set_membership(c, None);
                assert forall|k: int| 0 <= k < c + 1 implies #[trigger] self@.characters[k] == spec_delete_party(w, pi as int).characters[k] by {
                    if k < c { assert(self@.characters[k] == before.characters[k]); }
                }
            }
            c += 1;
        }
        assert(self@.characters.len() == spec_delete_party(w, pi as int).characters.len());
        assert(self@.characters =~= spec_delete_party(w, pi as int).characters);
        let ghost chars = self@.characters;
        self.parties.remove(pi);
        assert(self@.characters == chars);
        assert(self@.parties =~= spec_delete_party(w, pi as int).parties);
        assert(self@.characters =~= spec_delete_party(w, pi as int).characters);
    }
}

/// The first online member of a member list.
pub open spec fn first_online(members: Seq<PartyMemberModel>) -> Option<u64>
    decreases members.len(),
{
    if members.len() == 0 {
        None
    } else if members[0] is Online {
        Some(members[0]->Online_0)
    } else {
        first_online(members.drop_first())
    }
}

proof fn lemma_first_online(members: Seq<PartyMemberModel>)
    ensures
        first_online(members) matches Some(o) ==> exists|k: int| 0 <= k < members.len() && members[k] == PartyMemberModel::Online(o),
        first_online(members) is None ==> forall|k: int| 0 <= k < members.len() ==> !(#[trigger] members[k] is Online),
    decreases members.len(),
{
    if members.len() > 0 && !(members[0] is Online) {
        lemma_first_online(members.drop_first());
        if let Some(o) = first_online(members) {
            let k = choose|k: int| 0 <= k < members.drop_first().len() && members.drop_first()[k] == PartyMemberModel::Online(o);
            assert(members[k + 1] == PartyMemberModel::Online(o));
        } else {
            assert forall|k: int| 0 <= k < members.len() implies !(#[trigger] members[k] is Online) by {
                if k > 0 { assert(members[k] == members.drop_first()[k - 1]); }
            }
        }
    } else if members.len() > 0 {
        assert(members[0] == PartyMemberModel::Online(members[0]->Online_0));
    }
}

/// The position of an online member in a member list.
pub open spec fn online_position(members: Seq<PartyMemberModel>, entity: u64) -> int {
    choose|k: int| 0 <= k < members.len() && members[k] == PartyMemberModel::Online(entity)
}

proof fn lemma_wf_except_update(w: PartyWorldModel, pi: int, w2: PartyWorldModel)
    requires
        party_world_wf_except(w, pi),
        w2.parties.len() == w.parties.len(),
        forall|i: int| 0 <= i < w.parties.len() && i != pi ==> w2.parties[i] == w.parties[i],
        w2.parties[pi].entity == w.parties[pi].entity,
        w2.characters.len() == w.characters.len(),
        forall|c: int| 0 <= c < w.characters.len() ==> (#[trigger] w2.characters[c]).entity == w.characters[c].entity,
        forall|c: int| 0 <= c < w.characters.len() ==> (#[trigger] w2.characters[c]) == w.characters[c]
            || (w.characters[c].party_membership == Some(w.parties[pi].entity)
                && (w2.characters[c].party_membership is None || w2.characters[c].party_membership == Some(w.parties[pi].entity))),
    ensures
        party_world_wf_except(w2, pi),
{
    let pe = w.parties[pi].entity;
    assert forall|i: int, j: int| 0 <= i < w2.parties.len() && 0 <= j < w2.parties.len() && i != j
        implies (#[trigger] w2.parties[i]).entity != (#[trigger] w2.parties[j]).entity by {
        assert(w2.parties[i].entity == w.parties[i].entity);
        assert(w2.parties[j].entity == w.parties[j].entity);
        assert(w.parties[i].entity != w.parties[j].entity);
    }
    assert forall|i: int, j: int| 0 <= i < w2.characters.len() && 0 <= j < w2.characters.len() && i != j
        implies (#[trigger] w2.characters[i]).entity != (#[trigger] w2.characters[j]).entity by {
        assert(w.characters[i].entity != w.characters[j].entity);
    }
    assert forall|i: int| 0 <= i < w2.parties.len() && i != pi implies party_shape_ok(#[trigger] w2.parties[i]) by {
        assert(w2.parties[i] == w.parties[i]);
    }
    assert forall|i: int, k: int| 0 <= i < w2.parties.len() && i != pi && 0 <= k < w2.parties[i].members.len()
        && (#[trigger] w2.parties[i].members[k]) is Online implies
            exists|c: int| 0 <= c < w2.characters.len()
                && (#[trigger] w2.characters[c]).entity == w2.parties[i].members[k]->Online_0
                && w2.characters[c].party_membership == Some(w2.parties[i].entity) by {
        assert(w2.parties[i] == w.parties[i]);
        assert(w.parties[i].members[k] is Online);
        let c = choose|c: int| 0 <= c < w.characters.len()
            && (#[trigger] w.characters[c]).entity == w.parties[i].members[k]->Online_0
            && w.characters[c].party_membership == Some(w.parties[i].entity);
        assert(w.parties[i].entity != pe);
        assert(w2.characters[c] == w.characters[c]);
    }
    assert forall|c: int| 0 <= c < w2.characters.len() && (#[trigger] w2.characters[c]).party_membership is Some
        && w2.characters[c].party_membership != Some(w2.parties[pi].entity) implies
        exists|i: int| 0 <= i < w2.parties.len()
            && (#[trigger] w2.parties[i]).entity == w2.characters[c].party_membership->0
            && is_online_member(w2.parties[i], w2.characters[c].entity) by {
        assert(w2.characters[c] == w.characters[c]);
        let i = choose|i: int| 0 <= i < w.parties.len()
            && (#[trigger] w.parties[i]).entity == w.characters[c].party_membership->0
            && is_online_member(w.parties[i], w.characters[c].entity);
        assert(i != pi);
        assert(w2.parties[i] == w.parties[i]);
    }
}

/// Why leaving a party failed.
#[derive(Clone, Copy, Debug, PartialEq, Eq, Structural)]
pub enum PartyLeaveError {
    InvalidEntity,
    NotInParty,
}

/// A party after an online member left: a departing owner hands over to the
/// first online member left, and a party with no online member left is
/// emptied.
pub open spec fn party_after_leave(p: PartyModel, leaver: u64) -> PartyModel {
    let members = p.members.remove(online_position(p.members, leaver));
    if p.owner == leaver {
        match first_online(members) {
            Some(o) => PartyModel { owner: o, members, ..p },
            None => PartyModel { members: Seq::empty(), ..p },
        }
    } else {
        PartyModel { members, ..p }
    }
}

/// The meaning of a character leaving its party: it leaves, and a party
/// down to one member is dissolved.
pub open spec fn spec_leave(w: PartyWorldModel, leaver: u64) -> (PartyWorldModel, Result<(), PartyLeaveError>) {
    if !has_character(w, leaver) {
        (w, Err(PartyLeaveError::InvalidEntity))
    } else if membership_of(w, leaver) is None {
        (w, Err(PartyLeaveError::NotInParty))
    } else {
        let pi = party_idx(w, membership_of(w, leaver)->0);
        let p = party_after_leave(w.parties[pi], leaver);
        let w2 = with_party(with_membership(w, char_idx(w, leaver), None), pi, p);
        if p.members.len() <= 1 {
            (spec_delete_party(w2, pi), Ok(()))
        } else {
            (w2, Ok(()))
        }
    }
}

/// Removing a member from a party, or all of them, keeps ids unique.
proof fn lemma_ids_fewer_members(w: PartyWorldModel, w2: PartyWorldModel, pi: int, pos: int)
    requires
        character_ids_ok(w),
        0 <= pi < w.parties.len(),
        0 <= pos < w.parties[pi].members.len(),
        w2.characters.len() == w.characters.len(),
        forall|c: int| 0 <= c < w.characters.len() ==> (#[trigger] w2.characters[c]).character_id == w.characters[c].character_id,
        w2.parties.len() == w.parties.len(),
        forall|i: int| 0 <= i < w.parties.len() && i != pi ==> (#[trigger] w2.parties[i]).members == w.parties[i].members,
        w2.parties[pi].members == w.parties[pi].members.remove(pos) || w2.parties[pi].members.len() == 0,
    ensures
        character_ids_ok(w2),
{
    let kmap = |i: int, k: int| if i == pi && k >= pos && w2.parties[pi].members.len() > 0 { k + 1 } else { k };
    assert forall|i: int, k: int| #[trigger] offline_at(w2, i, k) implies
        offline_at(w, i, kmap(i, k)) && offline_id(w, i, kmap(i, k)) == offline_id(w2, i, k) by {
        if i != pi {
            assert(w2.parties[i].members == w.parties[i].members);
        }
    }
    lemma_ids_transfer(w, w2, |c: int| c, |i: int| i, kmap);
}

proof fn lemma_leave_wf(w: PartyWorldModel, li: int, pi: int)
    requires
        party_world_wf(w),
        0 <= li < w.characters.len(),
        0 <= pi < w.parties.len(),
        w.characters[li].party_membership == Some(w.parties[pi].entity),
    ensures ({
        let leaver = w.characters[li].entity;
        let p = party_after_leave(w.parties[pi], leaver);
        let w2 = with_party(with_membership(w, li, None), pi, p);
        &&& p.members.len() <= 1 ==> party_world_wf(spec_delete_party(w2, pi))
        &&& p.members.len() > 1 ==> party_world_wf(w2)
    }),
{
    let leaver = w.characters[li].entity;
    let op = w.parties[pi];
    let pe = op.entity;
    lemma_membership_party_exists(w, li);
    lemma_party_index_unique(w, pe, pi, party_idx(w, pe));
    let pos = online_position(op.members, leaver);
    assert(0 <= pos < op.members.len() && op.members[pos] == PartyMemberModel::Online(leaver));
    let m1 = op.members.remove(pos);
    let p = party_after_leave(op, leaver);
    let w2 = with_party(with_membership(w, li, None), pi, p);
    lemma_wf_implies_wf_except(w, pi);
    assert forall|c: int| 0 <= c < w.characters.len() implies (#[trigger] w2.characters[c]).entity == w.characters[c].entity by {}
    assert(p.members == m1 || p.members.len() == 0);
    lemma_ids_fewer_members(w, w2, pi, pos);
    assert forall|c: int| 0 <= c < w.characters.len() implies (#[trigger] w2.characters[c]) == w.characters[c]
        || (w.characters[c].party_membership == Some(w.parties[pi].entity)
            && (w2.characters[c].party_membership is None || w2.characters[c].party_membership == Some(w.parties[pi].entity))) by {}
    lemma_wf_except_update(w, pi, w2);
    if p.members.len() <= 1 {
        lemma_delete_party_wf(w2, pi);
    } else {
        lemma_first_online(m1);
        // members after removal are the old members without the leaver
        assert forall|k: int| 0 <= k < m1.len() implies #[trigger] m1[k] == op.members[if k < pos { k } else { k + 1 }] by {}
        assert(p.members == m1);
        assert(party_shape_ok(p)) by {
            if op.owner == leaver {
                assert(first_online(m1) is Some);
            } else {
                let k = choose|k: int| 0 <= k < op.members.len() && op.members[k] == PartyMemberModel::Online(op.owner);
                assert(k != pos);
                let nk = if k < pos { k } else { k - 1 };
                assert(m1[nk] == op.members[k]);
            }
            assert forall|a: int, b: int| 0 <= a < m1.len() && 0 <= b < m1.len() && a != b
                && (#[trigger] m1[a]) is Online implies #[trigger] m1[b] != m1[a] by {
                let oa = if a < pos { a } else { a + 1 };
                let ob = if b < pos { b } else { b + 1 };
                assert(op.members[oa] is Online);
                assert(op.members[ob] != op.members[oa]);
            }
        }
        assert forall|k: int| 0 <= k < w2.parties[pi].members.len() && (#[trigger] w2.parties[pi].members[k]) is Online implies
            exists|c: int| 0 <= c < w2.characters.len()
                && (#[trigger] w2.characters[c]).entity == w2.parties[pi].members[k]->Online_0
                && w2.characters[c].party_membership == Some(w2.parties[pi].entity) by {
            let ok = if k < pos { k } else { k + 1 };
            assert(op.members[ok] is Online);
            let c = choose|c: int| 0 <= c < w.characters.len()
                && (#[trigger] w.characters[c]).entity == w.parties[pi].members[ok]->Online_0
                && w.characters[c].party_membership == Some(w.parties[pi].entity);
            assert(ok != pos);
            assert(op.members[ok] != op.members[pos]);
            assert(c != li);
            assert(w2.characters[c] == w.characters[c]);
        }
        assert forall|c: int| 0 <= c < w2.characters.len() && (#[trigger] w2.characters[c]).party_membership == Some(w2.parties[pi].entity) implies
            is_online_member(w2.parties[pi], w2.characters[c].entity) by {
            assert(c != li);
            assert(w2.characters[c] == w.characters[c]);
            let j = choose|j: int| 0 <= j < w.parties.len()
                && (#[trigger] w.parties[j]).entity == w.characters[c].party_membership->0
                && is_online_member(w.parties[j], w.characters[c].entity);
            lemma_party_index_unique(w, pe, pi, j);
            let k = choose|k: int| 0 <= k < op.members.len() && op.members[k] == PartyMemberModel::Online(w.characters[c].entity);
            assert(w.characters[c].entity != leaver);
            assert(k != pos);
            let nk = if k < pos { k } else { k - 1 };
            assert(m1[nk] == op.members[k]);
        }
        lemma_wf_except_restore(w2, pi);
    }
}

pub open spec fn members_view(members: Seq<PartyMember>) -> Seq<PartyMemberModel> {
    members.map_values(|m: PartyMember| m@)
}

fn first_online_member(members: &Vec<PartyMember>) -> (result: Option<u64>)
    ensures
        result == first_online(members_view(members@)),
{
    let ghost s = members_view(members@);
    assert(s.skip(0) =~= s);
    let mut i: usize = 0;
    while i < members.len()
        invariant
            i <= members.len(),
            s == members_view(members@),
            first_online(s) == first_online(s.skip(i as int)),
        decreases members.len() - i,
    {
        assert(s.skip(i as int)[0] == s[i as int]);
        match &members[i] {
            PartyMember::Online(e) => {
                return Some(*e);
            },
            PartyMember::Offline(_, _) => {
                assert(s.skip(i as int).drop_first() =~= s.skip(i as int + 1));
            },
        }
        i += 1;
    }
    assert(s.skip(i as int).len() == 0);
    None
}

fn online_member_position(members: &Vec<PartyMember>, entity: u64) -> (result: Option<usize>)
    ensures
        match result {
            Some(k) => k < members.len() && members_view(members@)[k as int] == PartyMemberModel::Online(entity),
            None => forall|k: int| 0 <= k < members.len() ==> members_view(members@)[k] != PartyMemberModel::Online(entity),
        },
{
    let mut i: usize = 0;
    while i < members.len()
        invariant
            i <= members.len(),
            forall|k: int| 0 <= k < i ==> members_view(members@)[k] != PartyMemberModel::Online(entity),
        decreases members.len() - i,
    {
        match &members[i] {
            PartyMember::Online(e) => {
                if *e == entity {
                    return Some(i);
                }
            },
            PartyMember::Offline(_, _) => {},
        }
        i += 1;
    }
    None
}

impl PartyWorld {
    fn take_party(&mut self, pi: usize) -> (party: Party)
        requires
            pi < old(self).parties.len(),
        ensures
            party@ == old(self)@.parties[pi as int],
            final(self).parties.len() == old(self).parties.len(),
            final(self).characters@ == old(self).characters@,
            forall|j: int| 0 <= j < old(self).parties.len() && j != pi ==> final(self).parties@[j] == old(self).parties@[j],
    {
        let mut party = Party {
            entity: 0, owner: 0, members: Vec::new(),
            item_sharing: PartyItemSharing::EqualLootDistribution,
            xp_sharing: PartyXpSharing::EqualShare,
            average_member_level: 0,
        };
        self.parties.set_and_swap(pi, &mut party);
        party
    }
}

/// A character leaves its party. A departing owner hands over to the first
/// online member left; a party down to one member is dissolved.
pub fn handle_party_leave(world: &mut PartyWorld, leaver_entity: u64) -> (result: Result<(), PartyLeaveError>)
    requires
        party_world_wf(old(world)@),
    ensures
        party_world_wf(final(world)@),
        (final(world)@, result) == spec_leave(old(world)@, leaver_entity),
{
    let ghost w = world@;
    let li = match world.find_character(leaver_entity) {
        Some(i) => i,
        None => return Err(PartyLeaveError::InvalidEntity),
    };
    proof { lemma_character_index_unique(w, leaver_entity, li as int, char_idx(w, leaver_entity)); }
    let party_entity = match world.characters[li].party_membership {
        Some(e) => e,
        None => return Err(PartyLeaveError::NotInParty),
    };
    proof { lemma_membership_party_exists(w, li as int); }
    let pi = world.find_party(party_entity).unwrap();
    proof {
        lemma_party_index_unique(w, party_entity, pi as int, party_idx(w, party_entity));
        lemma_leave_wf(w, li as int, pi as int);
    }
    let ghost op = w.parties[pi as int];
    world.set_membership(li, None);
    let ghost w1 = world@;
    let mut party = world.take_party(pi);
    let pos = online_member_position(&party.members, leaver_entity).unwrap();
    proof {
        let c = online_position(op.members, leaver_entity);
        assert(op.members[c] == PartyMemberModel::Online(leaver_entity));
        assert(op.members[c] is Online);
        if c != pos as int {
            assert(op.members[pos as int] != op.members[c]);
        }
    }
    party.members.remove(pos);
    assert(members_view(party.members@) =~= op.members.remove(pos as int));
    if party.owner == leaver_entity {
        match first_online_member(&party.members) {
            Some(new_owner) => {
                party.owner = new_owner;
            },
            None => {
                party.members.clear();
            },
        }
    }
    let remaining = party.members.len();
    assert(party@.members =~= party_after_leave(op, leaver_entity).members);
    world.parties.set(pi, party);
    assert(world@.parties =~= with_party(w1, pi as int, party_after_leave(op, leaver_entity)).parties);
    assert(world@.characters =~= w1.characters);
    if remaining <= 1 {
        world.delete_party(pi);
    }
    Ok(())
}

/// Why kicking a member failed.
#[derive(Clone, Copy, Debug, PartialEq, Eq, Structural)]
pub enum PartyKickError {
    InvalidEntity,
    NotOwner,
    NotInParty,
    InvalidKickCharacter,
}

/// The connected character with character id `id`, if there is one.
pub open spec fn has_character_id(w: PartyWorldModel, id: u32) -> bool {
    exists|c: int| 0 <= c < w.characters.len() && w.characters[c].character_id == id
}

pub open spec fn char_idx_by_id(w: PartyWorldModel, id: u32) -> int {
    choose|c: int| 0 <= c < w.characters.len() && w.characters[c].character_id == id
}

/// A disconnected member of party `pi` listed under `id`.
pub open spec fn has_offline_member(w: PartyWorldModel, pi: int, id: u32) -> bool {
    exists|k: int| offline_at(w, pi, k) && offline_id(w, pi, k) == id
}

pub open spec fn offline_position(w: PartyWorldModel, pi: int, id: u32) -> int {
    choose|k: int| offline_at(w, pi, k) && offline_id(w, pi, k) == id
}

/// The party at `pi` without its member at `k`, dissolved when one member
/// or none is left.
pub open spec fn spec_remove_member_at(w: PartyWorldModel, pi: int, k: int) -> PartyWorldModel {
    let w2 = with_party(w, pi, PartyModel { members: w.parties[pi].members.remove(k), ..w.parties[pi] });
    if w2.parties[pi].members.len() <= 1 {
        spec_delete_party(w2, pi)
    } else {
        w2
    }
}

/// The meaning of a kick: the member with the character id leaves the
/// owner's party, whether it is connected or not; a party down to one
/// member is dissolved. Character ids being unique, at most one member
/// carries the id.
pub open spec fn spec_kick(w: PartyWorldModel, owner: u64, kick_id: u32) -> (PartyWorldModel, Result<(), PartyKickError>) {
    if !has_character(w, owner) {
        (w, Err(PartyKickError::InvalidEntity))
    } else if membership_of(w, owner) is None {
        (w, Err(PartyKickError::NotInParty))
    } else {
        let pe = membership_of(w, owner)->0;
        let pi = party_idx(w, pe);
        if w.parties[pi].owner != owner {
            (w, Err(PartyKickError::NotOwner))
        } else if w.characters[char_idx(w, owner)].character_id == kick_id {
            (w, Err(PartyKickError::InvalidKickCharacter))
        } else if has_character_id(w, kick_id) && w.characters[char_idx_by_id(w, kick_id)].party_membership == Some(pe) {
            (spec_leave(w, w.characters[char_idx_by_id(w, kick_id)].entity).0, Ok(()))
        } else if has_offline_member(w, pi, kick_id) {
            (spec_remove_member_at(w, pi, offline_position(w, pi, kick_id)), Ok(()))
        } else {
            (w, Err(PartyKickError::InvalidKickCharacter))
        }
    }
}

proof fn lemma_remove_offline_wf(w: PartyWorldModel, pi: int, pos: int)
    requires
        party_world_wf(w),
        offline_at(w, pi, pos),
    ensures
        party_world_wf(spec_remove_member_at(w, pi, pos)),
{
    let op = w.parties[pi];
    let m1 = op.members.remove(pos);
    let p = PartyModel { members: m1, ..op };
    let w2 = with_party(w, pi, p);
    lemma_wf_implies_wf_except(w, pi);
    lemma_wf_except_update(w, pi, w2);
    lemma_ids_fewer_members(w, w2, pi, pos);
    if m1.len() <= 1 {
        lemma_delete_party_wf(w2, pi);
    } else {
        assert forall|k: int| 0 <= k < m1.len() implies #[trigger] m1[k] == op.members[if k < pos { k } else { k + 1 }] by {}
        assert(party_shape_ok(p)) by {
            let k = choose|k: int| 0 <= k < op.members.len() && op.members[k] == PartyMemberModel::Online(op.owner);
            assert(k != pos);
            let nk = if k < pos { k } else { k - 1 };
            assert(m1[nk] == op.members[k]);
            assert forall|a: int, b: int| 0 <= a < m1.len() && 0 <= b < m1.len() && a != b
                && (#[trigger] m1[a]) is Online implies #[trigger] m1[b] != m1[a] by {
                let oa = if a < pos { a } else { a + 1 };
                let ob = if b < pos { b } else { b + 1 };
                assert(op.members[oa] is Online);
                assert(op.members[ob] != op.members[oa]);
            }
        }
        assert forall|k: int| 0 <= k < w2.parties[pi].members.len() && (#[trigger] w2.parties[pi].members[k]) is Online implies
            exists|c: int| 0 <= c < w2.characters.len()
                && (#[trigger] w2.characters[c]).entity == w2.parties[pi].members[k]->Online_0
                && w2.characters[c].party_membership == Some(w2.parties[pi].entity) by {
            let ok = if k < pos { k } else { k + 1 };
            assert(op.members[ok] is Online);
        }
        assert forall|c: int| 0 <= c < w2.characters.len() && (#[trigger] w2.characters[c]).party_membership == Some(w2.parties[pi].entity) implies
            is_online_member(w2.parties[pi], w2.characters[c].entity) by {
            let j = choose|j: int| 0 <= j < w.parties.len()
                && (#[trigger] w.parties[j]).entity == w.characters[c].party_membership->0
                && is_online_member(w.parties[j], w.characters[c].entity);
            lemma_party_index_unique(w, op.entity, pi, j);
            let k = choose|k: int| 0 <= k < op.members.len() && op.members[k] == PartyMemberModel::Online(w.characters[c].entity);
            assert(k != pos);
            let nk = if k < pos { k } else { k - 1 };
            assert(m1[nk] == op.members[k]);
        }
        lemma_wf_except_restore(w2, pi);
    }
}

fn offline_member_position(members: &Vec<PartyMember>, id: u32) -> (result: Option<usize>)
    ensures
        match result {
            Some(k) => k < members.len() && members_view(members@)[k as int] is Offline
                && members_view(members@)[k as int]->Offline_0 == id,
            None => forall|k: int| 0 <= k < members.len() ==> !(members_view(members@)[k] is Offline
                && members_view(members@)[k]->Offline_0 == id),
        },
{
    let mut i: usize = 0;
    while i < members.len()
        invariant
            i <= members.len(),
            forall|k: int| 0 <= k < i ==> !(members_view(members@)[k] is Offline
                && members_view(members@)[k]->Offline_0 == id),
        decreases members.len() - i,
    {
        match &members[i] {
            PartyMember::Offline(member_id, _) => {
                if *member_id == id {
                    return Some(i);
                }
            },
            PartyMember::Online(_) => {},
        }
        i += 1;
    }
    None
}

impl PartyWorld {
    pub fn find_character_by_id(&self, id: u32) -> (result: Option<usize>)
        ensures
            match result {
                Some(i) => i < self.characters.len() && self@.characters[i as int].character_id == id,
                None => !has_character_id(self@, id),
            },
    {
        let mut i: usize = 0;
        while i < self.characters.len()
            invariant
                i <= self.characters.len(),
                forall|j: int| 0 <= j < i ==> self@.characters[j].character_id != id,
            decreases self.characters.len() - i,
        {
            if self.characters[i].character_id == id {
                return Some(i);
            }
            i += 1;
        }
        None
    }

    /// Removes the member at `k` of the party at `pi`, and the party itself
    /// when one member or none is left.
    fn remove_member_at(&mut self, pi: usize, k: usize)
        requires
            pi < old(self).parties.len(),
            k < old(self).parties[pi as int].members.len(),
        ensures
            final(self)@ == spec_remove_member_at(old(self)@, pi as int, k as int),
    {
        let ghost w = self@;
        let mut party = self.take_party(pi);
        party.members.remove(k);
        assert(party@.members =~= w.parties[pi as int].members.remove(k as int));
        let remaining = party.members.len();
        self.parties.set(pi, party);
        let ghost w2 = with_party(w, pi as int, PartyModel { members: w.parties[pi as int].members.remove(k as int), ..w.parties[pi as int] });
        assert(self@.parties =~= w2.parties);
        assert(self@.characters =~= w2.characters);
        if remaining <= 1 {
            self.delete_party(pi);
        }
    }
}

/// The owner removes the member with character id `kick_id` from the
/// party, connected or not. A party down to one member is dissolved.
pub fn handle_party_kick(world: &mut PartyWorld, owner_entity: u64, kick_id: u32) -> (result: Result<(), PartyKickError>)
    requires
        party_world_wf(old(world)@),
    ensures
        party_world_wf(final(world)@),
        (final(world)@, result) == spec_kick(old(world)@, owner_entity, kick_id),
{
    let ghost w = world@;
    let oi = match world.find_character(owner_entity) {
        Some(i) => i,
        None => return Err(PartyKickError::InvalidEntity),
    };
    proof { lemma_character_index_unique(w, owner_entity, oi as int, char_idx(w, owner_entity)); }
    let party_entity = match world.characters[oi].party_membership {
        Some(e) => e,
        None => return Err(PartyKickError::NotInParty),
    };
    proof { lemma_membership_party_exists(w, oi as int); }
    let pi = world.find_party(party_entity).unwrap();
    proof { lemma_party_index_unique(w, party_entity, pi as int, party_idx(w, party_entity)); }
    if world.parties[pi].owner != owner_entity {
        return Err(PartyKickError::NotOwner);
    }
    if world.characters[oi].character_id == kick_id {
        return Err(PartyKickError::InvalidKickCharacter);
    }
    match world.find_character_by_id(kick_id) {
        Some(ki) => {
            proof {
                let kc = char_idx_by_id(w, kick_id);
                if kc != ki as int {
                    assert(w.characters[kc].character_id != w.characters[ki as int].character_id);
                }
            }
            if world.characters[ki].party_membership == Some(party_entity) {
                let kicked_entity = world.characters[ki].entity;
                let r = handle_party_leave(world, kicked_entity);
                return Ok(());
            }
        },
        None => {},
    }
    match offline_member_position(&world.parties[pi].members, kick_id) {
        Some(k) => {
            proof {
                assert(offline_at(w, pi as int, k as int) && offline_id(w, pi as int, k as int) == kick_id);
                let ok = offline_position(w, pi as int, kick_id);
                if ok != k as int {
                    assert(offline_id(w, pi as int, ok) != offline_id(w, pi as int, k as int));
                }
                lemma_remove_offline_wf(w, pi as int, k as int);
            }
            world.remove_member_at(pi, k);
            Ok(())
        },
        None => {
            assert(!has_offline_member(w, pi as int, kick_id));
            Err(PartyKickError::InvalidKickCharacter)
        },
    }
}

/// Why a disconnect changed no party.
#[derive(Clone, Copy, Debug, PartialEq, Eq, Structural)]
pub enum PartyMemberDisconnectError {
    InvalidParty,
}

/// The world without the character at `ci`.
pub open spec fn without_character(w: PartyWorldModel, ci: int) -> PartyWorldModel {
    PartyWorldModel { characters: w.characters.remove(ci), ..w }
}

/// The party of a character that disconnected: its entry turns into an
/// offline entry under its id and name; a departing owner hands over to the
/// first online member, and a party with none left online is dissolved.
pub open spec fn spec_disconnect(w: PartyWorldModel, entity: u64) -> (PartyWorldModel, Result<(), PartyMemberDisconnectError>) {
    if !has_character(w, entity) {
        (w, Err(PartyMemberDisconnectError::InvalidParty))
    } else {
        let ci = char_idx(w, entity);
        let c = w.characters[ci];
        let w1 = without_character(w, ci);
        if c.party_membership is None {
            (w1, Err(PartyMemberDisconnectError::InvalidParty))
        } else {
            let pi = party_idx(w, c.party_membership->0);
            let p = w.parties[pi];
            let m = p.members.update(online_position(p.members, entity), PartyMemberModel::Offline(c.character_id, c.name));
            if p.owner != entity {
                (with_party(w1, pi, PartyModel { members: m, ..p }), Ok(()))
            } else {
                match first_online(m) {
                    Some(o) => (with_party(w1, pi, PartyModel { owner: o, members: m, ..p }), Ok(())),
                    None => (spec_delete_party(with_party(w1, pi, PartyModel { members: m, ..p }), pi), Ok(())),
                }
            }
        }
    }
}

/// A character with no party that no other party lists can leave the world.
proof fn lemma_wf_except_remove_char(w: PartyWorldModel, pi: int, ci: int)
    requires
        party_world_wf_except(w, pi),
        0 <= ci < w.characters.len(),
        w.characters[ci].party_membership is None,
        forall|i: int| 0 <= i < w.parties.len() && i != pi ==> !is_online_member(#[trigger] w.parties[i], w.characters[ci].entity),
    ensures
        party_world_wf_except(without_character(w, ci), pi),
{
    let w2 = without_character(w, ci);
    assert forall|c: int| 0 <= c < w2.characters.len() implies #[trigger] w2.characters[c] == w.characters[if c < ci { c } else { c + 1 }] by {}
    assert forall|i: int, j: int| 0 <= i < w2.characters.len() && 0 <= j < w2.characters.len() && i != j
        implies (#[trigger] w2.characters[i]).entity != (#[trigger] w2.characters[j]).entity by {
        let oi = if i < ci { i } else { i + 1 };
        let oj = if j < ci { j } else { j + 1 };
        assert(w.characters[oi].entity != w.characters[oj].entity);
    }
    assert forall|i: int, k: int| 0 <= i < w2.parties.len() && i != pi && 0 <= k < w2.parties[i].members.len()
        && (#[trigger] w2.parties[i].members[k]) is Online implies
            exists|c: int| 0 <= c < w2.characters.len()
                && (#[trigger] w2.characters[c]).entity == w2.parties[i].members[k]->Online_0
                && w2.characters[c].party_membership == Some(w2.parties[i].entity) by {
        let c = choose|c: int| 0 <= c < w.characters.len()
            && (#[trigger] w.characters[c]).entity == w.parties[i].members[k]->Online_0
            && w.characters[c].party_membership == Some(w.parties[i].entity);
        assert(c != ci);
        let nc = if c < ci { c } else { c - 1 };
        assert(w2.characters[nc] == w.characters[c]);
    }
    assert forall|c: int| 0 <= c < w2.characters.len() && (#[trigger] w2.characters[c]).party_membership is Some
        && w2.characters[c].party_membership != Some(w2.parties[pi].entity) implies
        exists|i: int| 0 <= i < w2.parties.len()
            && (#[trigger] w2.parties[i]).entity == w2.characters[c].party_membership->0
            && is_online_member(w2.parties[i], w2.characters[c].entity) by {
        let oc = if c < ci { c } else { c + 1 };
        assert(w.characters[oc].party_membership is Some);
    }
}

/// Ids stay unique when a character leaves the world and its entry in its
/// party turns offline under its id.
proof fn lemma_ids_disconnect(w: PartyWorldModel, w2: PartyWorldModel, ci: int, pi: int, pos: int, name: Seq<char>)
    requires
        character_ids_ok(w),
        0 <= ci < w.characters.len(),
        0 <= pi < w.parties.len(),
        0 <= pos < w.parties[pi].members.len(),
        w.parties[pi].members[pos] is Online,
        w2.characters == w.characters.remove(ci),
        w2.parties.len() == w.parties.len(),
        forall|i: int| 0 <= i < w.parties.len() && i != pi ==> (#[trigger] w2.parties[i]).members == w.parties[i].members,
        w2.parties[pi].members == w.parties[pi].members.update(pos, PartyMemberModel::Offline(w.characters[ci].character_id, name)),
    ensures
        character_ids_ok(w2),
{
    let id = w.characters[ci].character_id;
    assert forall|c: int| 0 <= c < w2.characters.len() implies #[trigger] w2.characters[c] == w.characters[if c < ci { c } else { c + 1 }] by {}
    assert forall|i: int, k: int| #[trigger] offline_at(w2, i, k) && (i != pi || k != pos) implies
        offline_at(w, i, k) && offline_id(w, i, k) == offline_id(w2, i, k) by {
        if i != pi {
            assert(w2.parties[i].members == w.parties[i].members);
        }
    }
    assert(offline_at(w2, pi, pos) && offline_id(w2, pi, pos) == id);
    assert forall|a: int, b: int| 0 <= a < w2.characters.len() && 0 <= b < w2.characters.len() && a != b
        implies (#[trigger] w2.characters[a]).character_id != (#[trigger] w2.characters[b]).character_id by {
        let oa = if a < ci { a } else { a + 1 };
        let ob = if b < ci { b } else { b + 1 };
        assert(w.characters[oa].character_id != w.characters[ob].character_id);
    }
    assert forall|i: int, k: int, j: int, l: int|
        #[trigger] offline_at(w2, i, k) && #[trigger] offline_at(w2, j, l) && (i != j || k != l)
        implies offline_id(w2, i, k) != offline_id(w2, j, l) by {
        if i == pi && k == pos {
            assert(offline_at(w, j, l));
            assert(offline_id(w, j, l) != w.characters[ci].character_id);
        } else if j == pi && l == pos {
            assert(offline_at(w, i, k));
            assert(offline_id(w, i, k) != w.characters[ci].character_id);
        } else {
            assert(offline_at(w, i, k) && offline_at(w, j, l));
        }
    }
    assert forall|i: int, k: int, c: int|
        #[trigger] offline_at(w2, i, k) && 0 <= c < w2.characters.len()
        implies offline_id(w2, i, k) != (#[trigger] w2.characters[c]).character_id by {
        let oc = if c < ci { c } else { c + 1 };
        if i == pi && k == pos {
            assert(w.characters[oc].character_id != w.characters[ci].character_id);
        } else {
            assert(offline_at(w, i, k));
            assert(offline_id(w, i, k) != w.characters[oc].character_id);
        }
    }
}

proof fn lemma_disconnect_wf(w: PartyWorldModel, entity: u64)
    requires
        party_world_wf(w),
    ensures
        party_world_wf(spec_disconnect(w, entity).0),
{
    if !has_character(w, entity) {
        return;
    }
    let ci = char_idx(w, entity);
    let c = w.characters[ci];
    let w1 = without_character(w, ci);
    if c.party_membership is None {
        // a character with no party is listed online by no party
        assert forall|i: int| 0 <= i < w.parties.len() implies !is_online_member(#[trigger] w.parties[i], entity) by {
            lemma_no_membership_not_online(w, ci, i);
        }
        assert forall|c2: int| 0 <= c2 < w1.characters.len() implies #[trigger] w1.characters[c2] == w.characters[if c2 < ci { c2 } else { c2 + 1 }] by {}
        assert forall|i: int, k: int| 0 <= i < w1.parties.len() && 0 <= k < w1.parties[i].members.len()
            && (#[trigger] w1.parties[i].members[k]) is Online implies
                exists|c2: int| 0 <= c2 < w1.characters.len()
                    && (#[trigger] w1.characters[c2]).entity == w1.parties[i].members[k]->Online_0
                    && w1.characters[c2].party_membership == Some(w1.parties[i].entity) by {
            let c2 = choose|c2: int| 0 <= c2 < w.characters.len()
                && (#[trigger] w.characters[c2]).entity == w.parties[i].members[k]->Online_0
                && w.characters[c2].party_membership == Some(w.parties[i].entity);
            assert(c2 != ci);
            let nc = if c2 < ci { c2 } else { c2 - 1 };
            assert(w1.characters[nc] == w.characters[c2]);
        }
        assert forall|a: int, b: int| 0 <= a < w1.characters.len() && 0 <= b < w1.characters.len() && a != b
            implies (#[trigger] w1.characters[a]).entity != (#[trigger] w1.characters[b]).entity by {
            let oa = if a < ci { a } else { a + 1 };
            let ob = if b < ci { b } else { b + 1 };
            assert(w.characters[oa].entity != w.characters[ob].entity);
        }
        assert forall|c2: int| 0 <= c2 < w1.characters.len() && (#[trigger] w1.characters[c2]).party_membership is Some implies
            exists|i: int| 0 <= i < w1.parties.len()
                && (#[trigger] w1.parties[i]).entity == w1.characters[c2].party_membership->0
                && is_online_member(w1.parties[i], w1.characters[c2].entity) by {
            let oc = if c2 < ci { c2 } else { c2 + 1 };
            assert(w.characters[oc].party_membership is Some);
        }
        assert forall|i: int, k: int| #[trigger] offline_at(w1, i, k) implies
            offline_at(w, i, k) && offline_id(w, i, k) == offline_id(w1, i, k) by {}
        lemma_ids_transfer(w, w1, |c2: int| if c2 < ci { c2 } else { c2 + 1 }, |i: int| i, |i: int, k: int| k);
        return;
    }
    let pe = c.party_membership->0;
    lemma_membership_party_exists(w, ci);
    let pi = party_idx(w, pe);
    let p = w.parties[pi];
    let pos = online_position(p.members, entity);
    assert(0 <= pos < p.members.len() && p.members[pos] == PartyMemberModel::Online(entity));
    let m = p.members.update(pos, PartyMemberModel::Offline(c.character_id, c.name));
    let np = if p.owner != entity {
        PartyModel { members: m, ..p }
    } else {
        match first_online(m) {
            Some(o) => PartyModel { owner: o, members: m, ..p },
            None => PartyModel { members: m, ..p },
        }
    };
    let wa = with_party(with_membership(w, ci, None), pi, np);
    let wb = with_party(w1, pi, np);
    assert(without_character(wa, ci).characters =~= wb.characters);
    assert(without_character(wa, ci) == wb);
    // the disconnecting character is online in its own party only
    assert forall|i: int| 0 <= i < w.parties.len() && i != pi implies !is_online_member(#[trigger] w.parties[i], entity) by {
        if is_online_member(w.parties[i], entity) {
            let k = choose|k: int| 0 <= k < w.parties[i].members.len() && w.parties[i].members[k] == PartyMemberModel::Online(entity);
            assert(w.parties[i].members[k] is Online);
            let c2 = choose|c2: int| 0 <= c2 < w.characters.len()
                && (#[trigger] w.characters[c2]).entity == w.parties[i].members[k]->Online_0
                && w.characters[c2].party_membership == Some(w.parties[i].entity);
            lemma_character_index_unique(w, entity, c2, ci);
            lemma_party_index_unique(w, pe, pi, i);
        }
    }
    lemma_wf_implies_wf_except(w, pi);
    assert forall|c2: int| 0 <= c2 < w.characters.len() implies (#[trigger] wa.characters[c2]).entity == w.characters[c2].entity by {}
    assert forall|c2: int| 0 <= c2 < w.characters.len() implies (#[trigger] wa.characters[c2]) == w.characters[c2]
        || (w.characters[c2].party_membership == Some(w.parties[pi].entity)
            && (wa.characters[c2].party_membership is None || wa.characters[c2].party_membership == Some(w.parties[pi].entity))) by {}
    lemma_wf_except_update(w, pi, wa);
    assert forall|i: int| 0 <= i < wa.parties.len() && i != pi implies !is_online_member(#[trigger] wa.parties[i], wa.characters[ci].entity) by {
        assert(wa.parties[i] == w.parties[i]);
    }
    lemma_wf_except_remove_char(wa, pi, ci);
    lemma_ids_disconnect(w, wb, ci, pi, pos, c.name);
    lemma_first_online(m);
    if p.owner == entity && first_online(m) is None {
        lemma_delete_party_wf(wb, pi);
        return;
    }
    assert forall|c2: int| 0 <= c2 < wb.characters.len() implies #[trigger] wb.characters[c2] == w.characters[if c2 < ci { c2 } else { c2 + 1 }] by {}
    assert(party_shape_ok(np)) by {
        if p.owner != entity {
            let k = choose|k: int| 0 <= k < p.members.len() && p.members[k] == PartyMemberModel::Online(p.owner);
            assert(k != pos);
            assert(m[k] == p.members[k]);
        }
        assert forall|a: int, b: int| 0 <= a < m.len() && 0 <= b < m.len() && a != b
            && (#[trigger] m[a]) is Online implies #[trigger] m[b] != m[a] by {
            assert(a != pos);
            assert(p.members[a] is Online);
            if b != pos {
                assert(p.members[b] != p.members[a]);
            }
        }
    }
    assert forall|k: int| 0 <= k < wb.parties[pi].members.len() && (#[trigger] wb.parties[pi].members[k]) is Online implies
        exists|c2: int| 0 <= c2 < wb.characters.len()
            && (#[trigger] wb.characters[c2]).entity == wb.parties[pi].members[k]->Online_0
            && wb.characters[c2].party_membership == Some(wb.parties[pi].entity) by {
        assert(k != pos);
        assert(p.members[k] is Online);
        let c2 = choose|c2: int| 0 <= c2 < w.characters.len()
            && (#[trigger] w.characters[c2]).entity == w.parties[pi].members[k]->Online_0
            && w.characters[c2].party_membership == Some(w.parties[pi].entity);
        assert(p.members[k] != p.members[pos]);
        assert(c2 != ci);
        let nc = if c2 < ci { c2 } else { c2 - 1 };
        assert(wb.characters[nc] == w.characters[c2]);
    }
    assert forall|c2: int| 0 <= c2 < wb.characters.len() && (#[trigger] wb.characters[c2]).party_membership == Some(wb.parties[pi].entity) implies
        is_online_member(wb.parties[pi], wb.characters[c2].entity) by {
        let oc = if c2 < ci { c2 } else { c2 + 1 };
        assert(wb.characters[c2] == w.characters[oc]);
        let j = choose|j: int| 0 <= j < w.parties.len()
            && (#[trigger] w.parties[j]).entity == w.characters[oc].party_membership->0
            && is_online_member(w.parties[j], w.characters[oc].entity);
        lemma_party_index_unique(w, pe, pi, j);
        let k = choose|k: int| 0 <= k < p.members.len() && p.members[k] == PartyMemberModel::Online(w.characters[oc].entity);
        assert(w.characters[oc].entity != w.characters[ci].entity);
        assert(k != pos);
        assert(m[k] == p.members[k]);
    }
    lemma_wf_except_restore(wb, pi);
}

/// A character disconnects: it leaves the world, and its entry in its party
/// turns offline under its id and name. A departing owner hands over to the
/// first online member; a party with nobody left online is dissolved.
pub fn handle_party_member_disconnect(world: &mut PartyWorld, disconnect_entity: u64)
    -> (result: Result<(), PartyMemberDisconnectError>)
    requires
        party_world_wf(old(world)@),
    ensures
        party_world_wf(final(world)@),
        (final(world)@, result) == spec_disconnect(old(world)@, disconnect_entity),
{
    let ghost w = world@;
    proof { lemma_disconnect_wf(w, disconnect_entity); }
    let ci = match world.find_character(disconnect_entity) {
        Some(i) => i,
        None => return Err(PartyMemberDisconnectError::InvalidParty),
    };
    proof { lemma_character_index_unique(w, disconnect_entity, ci as int, char_idx(w, disconnect_entity)); }
    let character = world.characters.remove(ci);
    assert(world@.characters =~= without_character(w, ci as int).characters);
    assert(world@.parties =~= w.parties);
    let party_entity = match character.party_membership {
        Some(e) => e,
        None => return Err(PartyMemberDisconnectError::InvalidParty),
    };
    proof {
        assert(character@ == w.characters[ci as int]);
        lemma_membership_party_exists(w, ci as int);
        assert(party_index(world@, party_entity, party_idx(w, party_entity)));
    }
    let pi = world.find_party(party_entity).unwrap();
    proof { lemma_party_index_unique(w, party_entity, pi as int, party_idx(w, party_entity)); }
    let ghost w1 = world@;
    let ghost op = w.parties[pi as int];
    let mut party = world.take_party(pi);
    let pos = online_member_position(&party.members, disconnect_entity).unwrap();
    proof {
        let c = online_position(op.members, disconnect_entity);
        assert(op.members[c] == PartyMemberModel::Online(disconnect_entity));
        if c != pos as int {
            assert(op.members[c] is Online);
            assert(op.members[pos as int] != op.members[c]);
        }
    }
    party.members.set(pos, PartyMember::Offline(character.character_id, character.name));
    let ghost m = op.members.update(pos as int, PartyMemberModel::Offline(character.character_id, character@.name));
    assert(members_view(party.members@) =~= m);
    let mut dissolve = false;
    if party.owner == disconnect_entity {
        match first_online_member(&party.members) {
            Some(new_owner) => {
                party.owner = new_owner;
            },
            None => {
                dissolve = true;
            },
        }
    }
    world.parties.set(pi, party);
    assert(world@.characters =~= w1.characters);
    if dissolve {
        assert(world@.parties =~= with_party(w1, pi as int, PartyModel { members: m, ..op }).parties);
        world.delete_party(pi);
    } else {
        assert(world@.parties =~= spec_disconnect(w, disconnect_entity).0.parties);
    }
    Ok(())
}

/// Position `k` of party `i` is the offline entry of the character `id`
/// named `name`.
pub open spec fn offline_match(w: PartyWorldModel, i: int, k: int, id: u32, name: Seq<char>) -> bool {
    &&& offline_at(w, i, k)
    &&& offline_id(w, i, k) == id
    &&& w.parties[i].members[k]->Offline_1 == name
}

/// The meaning of a character connecting: it enters the world, and if a
/// party lists it offline, that entry turns online and the character
/// belongs to that party again. Offline entries being unique, at most one
/// entry matches.
pub open spec fn spec_reconnect(w: PartyWorldModel, entity: u64, id: u32, name: Seq<char>) -> (PartyWorldModel, Option<u64>) {
    if exists|i: int, k: int| offline_match(w, i, k, id, name) {
        let (i, k) = choose|i: int, k: int| offline_match(w, i, k, id, name);
        let p = w.parties[i];
        (PartyWorldModel {
            parties: w.parties.update(i, PartyModel { members: p.members.update(k, PartyMemberModel::Online(entity)), ..p }),
            characters: w.characters.push(PartyCharacterModel { entity, character_id: id, name, party_membership: Some(p.entity) }),
        }, Some(p.entity))
    } else {
        (PartyWorldModel {
            characters: w.characters.push(PartyCharacterModel { entity, character_id: id, name, party_membership: None }),
            ..w
        }, None)
    }
}

/// What a connecting character must be for the bookkeeping to stay
/// consistent: a new entity, a character not connected yet, and every
/// offline entry under its id carrying its name.
pub open spec fn reconnect_ok(w: PartyWorldModel, entity: u64, id: u32, name: Seq<char>) -> bool {
    &&& !has_character(w, entity)
    &&& !has_character_id(w, id)
    &&& forall|i: int, k: int| #[trigger] offline_at(w, i, k) && offline_id(w, i, k) == id
        ==> w.parties[i].members[k]->Offline_1 == name
}

proof fn lemma_reconnect_wf(w: PartyWorldModel, entity: u64, id: u32, name: Seq<char>)
    requires
        party_world_wf(w),
        reconnect_ok(w, entity, id, name),
    ensures
        party_world_wf(spec_reconnect(w, entity, id, name).0),
{
    let n = w.characters.len() as int;
    assert forall|c: int| 0 <= c < n implies (#[trigger] w.characters[c]).entity != entity by {
        if w.characters[c].entity == entity { assert(character_index(w, entity, c)); }
    }
    assert forall|c: int| 0 <= c < n implies (#[trigger] w.characters[c]).character_id != id by {}
    if exists|i: int, k: int| offline_match(w, i, k, id, name) {
        let (i0, k0) = choose|i: int, k: int| offline_match(w, i, k, id, name);
        let p = w.parties[i0];
        let np = PartyModel { members: p.members.update(k0, PartyMemberModel::Online(entity)), ..p };
        let w2 = spec_reconnect(w, entity, id, name).0;
        assert(w2.parties[i0] == np);
        assert forall|i: int| 0 <= i < w.parties.len() && i != i0 implies #[trigger] w2.parties[i] == w.parties[i] by {}
        assert forall|c: int| 0 <= c < n implies #[trigger] w2.characters[c] == w.characters[c] by {}
        assert(w2.characters[n].entity == entity);
        // no online member of any party is the new entity
        assert forall|i: int, k: int| 0 <= i < w.parties.len() && 0 <= k < w.parties[i].members.len()
            && (#[trigger] w.parties[i].members[k]) is Online implies w.parties[i].members[k]->Online_0 != entity by {
            let c = choose|c: int| 0 <= c < w.characters.len()
                && (#[trigger] w.characters[c]).entity == w.parties[i].members[k]->Online_0
                && w.characters[c].party_membership == Some(w.parties[i].entity);
        }
        // ids
        assert forall|a: int, b: int| 0 <= a < w2.characters.len() && 0 <= b < w2.characters.len() && a != b
            implies (#[trigger] w2.characters[a]).character_id != (#[trigger] w2.characters[b]).character_id by {}
        assert forall|i: int, k: int| #[trigger] offline_at(w2, i, k) implies offline_at(w, i, k)
            && offline_id(w, i, k) == offline_id(w2, i, k) && (i != i0 || k != k0) by {
            if i != i0 { assert(w2.parties[i] == w.parties[i]); }
        }
        assert forall|i: int, k: int, j: int, l: int|
            #[trigger] offline_at(w2, i, k) && #[trigger] offline_at(w2, j, l) && (i != j || k != l)
            implies offline_id(w2, i, k) != offline_id(w2, j, l) by {
            assert(offline_at(w, i, k) && offline_at(w, j, l));
        }
        assert forall|i: int, k: int, c: int|
            #[trigger] offline_at(w2, i, k) && 0 <= c < w2.characters.len()
            implies offline_id(w2, i, k) != (#[trigger] w2.characters[c]).character_id by {
            assert(offline_at(w, i, k));
            if c == n {
                assert(offline_at(w, i0, k0) && offline_at(w, i, k));
                assert(offline_id(w, i0, k0) != offline_id(w, i, k));
            } else {
                assert(offline_id(w, i, k) != w.characters[c].character_id);
            }
        }
        // bookkeeping
        assert forall|i: int, j: int| 0 <= i < w2.parties.len() && 0 <= j < w2.parties.len() && i != j
            implies (#[trigger] w2.parties[i]).entity != (#[trigger] w2.parties[j]).entity by {
            assert(w2.parties[i].entity == w.parties[i].entity);
            assert(w2.parties[j].entity == w.parties[j].entity);
        }
        assert forall|a: int, b: int| 0 <= a < w2.characters.len() && 0 <= b < w2.characters.len() && a != b
            implies (#[trigger] w2.characters[a]).entity != (#[trigger] w2.characters[b]).entity by {}
        assert(party_shape_ok(np)) by {
            let k = choose|k: int| 0 <= k < p.members.len() && p.members[k] == PartyMemberModel::Online(p.owner);
            assert(p.members[k] is Online);
            assert(k != k0);
            assert(np.members[k] == p.members[k]);
            assert forall|a: int, b: int| 0 <= a < np.members.len() && 0 <= b < np.members.len() && a != b
                && (#[trigger] np.members[a]) is Online implies #[trigger] np.members[b] != np.members[a] by {
                if a == k0 {
                    if b != k0 && p.members[b] is Online {
                        assert(p.members[b]->Online_0 != entity);
                    }
                } else if b == k0 {
                    assert(p.members[a] is Online);
                    assert(p.members[a]->Online_0 != entity);
                } else {
                    assert(p.members[a] is Online);
                    assert(p.members[b] != p.members[a]);
                }
            }
        }
        assert forall|i: int| 0 <= i < w2.parties.len() implies {
            let q = #[trigger] w2.parties[i];
            &&& 2 <= q.members.len() <= PARTY_MAX_MEMBERS
            &&& is_online_member(q, q.owner)
            &&& forall|a: int, b: int| 0 <= a < q.members.len() && 0 <= b < q.members.len() && a != b
                && (#[trigger] q.members[a]) is Online ==> #[trigger] q.members[b] != q.members[a]
        } by {
            if i != i0 {
                assert(w2.parties[i] == w.parties[i]);
            } else {
                assert(party_shape_ok(np));
            }
        }
        assert forall|i: int, k: int| 0 <= i < w2.parties.len() && 0 <= k < w2.parties[i].members.len()
            && (#[trigger] w2.parties[i].members[k]) is Online implies
                exists|c: int| 0 <= c < w2.characters.len()
                    && (#[trigger] w2.characters[c]).entity == w2.parties[i].members[k]->Online_0
                    && w2.characters[c].party_membership == Some(w2.parties[i].entity) by {
            if i == i0 && k == k0 {
                assert(w2.characters[n].party_membership == Some(p.entity));
            } else {
                assert(w2.parties[i].members[k] == w.parties[i].members[k]);
                assert(w.parties[i].members[k] is Online);
                let c = choose|c: int| 0 <= c < w.characters.len()
                    && (#[trigger] w.characters[c]).entity == w.parties[i].members[k]->Online_0
                    && w.characters[c].party_membership == Some(w.parties[i].entity);
                assert(w2.characters[c] == w.characters[c]);
            }
        }
        assert forall|c: int| 0 <= c < w2.characters.len() && (#[trigger] w2.characters[c]).party_membership is Some implies
            exists|i: int| 0 <= i < w2.parties.len()
                && (#[trigger] w2.parties[i]).entity == w2.characters[c].party_membership->0
                && is_online_member(w2.parties[i], w2.characters[c].entity) by {
            if c == n {
                assert(np.members[k0] == PartyMemberModel::Online(entity));
                assert(is_online_member(w2.parties[i0], entity));
            } else {
                let i = choose|i: int| 0 <= i < w.parties.len()
                    && (#[trigger] w.parties[i]).entity == w.characters[c].party_membership->0
                    && is_online_member(w.parties[i], w.characters[c].entity);
                if i == i0 {
                    let k = choose|k: int| 0 <= k < p.members.len() && p.members[k] == PartyMemberModel::Online(w.characters[c].entity);
                    assert(k != k0);
                    assert(np.members[k] == p.members[k]);
                } else {
                    assert(w2.parties[i] == w.parties[i]);
                }
            }
        }
    } else {
        let w2 = spec_reconnect(w, entity, id, name).0;
        assert forall|c: int| 0 <= c < n implies #[trigger] w2.characters[c] == w.characters[c] by {}
        assert forall|i: int, k: int| #[trigger] offline_at(w, i, k) implies offline_id(w, i, k) != id by {
            if offline_id(w, i, k) == id {
                assert(offline_match(w, i, k, id, name));
            }
        }
        assert forall|a: int, b: int| 0 <= a < w2.characters.len() && 0 <= b < w2.characters.len() && a != b
            implies (#[trigger] w2.characters[a]).character_id != (#[trigger] w2.characters[b]).character_id by {}
        assert forall|i: int, k: int, j: int, l: int|
            #[trigger] offline_at(w2, i, k) && #[trigger] offline_at(w2, j, l) && (i != j || k != l)
            implies offline_id(w2, i, k) != offline_id(w2, j, l) by {
            assert(offline_at(w, i, k) && offline_at(w, j, l));
        }
        assert forall|i: int, k: int, c: int|
            #[trigger] offline_at(w2, i, k) && 0 <= c < w2.characters.len()
            implies offline_id(w2, i, k) != (#[trigger] w2.characters[c]).character_id by {
            assert(offline_at(w, i, k));
        }
        assert forall|a: int, b: int| 0 <= a < w2.characters.len() && 0 <= b < w2.characters.len() && a != b
            implies (#[trigger] w2.characters[a]).entity != (#[trigger] w2.characters[b]).entity by {}
        assert forall|i: int, k: int| 0 <= i < w2.parties.len() && 0 <= k < w2.parties[i].members.len()
            && (#[trigger] w2.parties[i].members[k]) is Online implies
                exists|c: int| 0 <= c < w2.characters.len()
                    && (#[trigger] w2.characters[c]).entity == w2.parties[i].members[k]->Online_0
                    && w2.characters[c].party_membership == Some(w2.parties[i].entity) by {
            let c = choose|c: int| 0 <= c < w.characters.len()
                && (#[trigger] w.characters[c]).entity == w.parties[i].members[k]->Online_0
                && w.characters[c].party_membership == Some(w.parties[i].entity);
            assert(w2.characters[c] == w.characters[c]);
        }
        assert forall|c: int| 0 <= c < w2.characters.len() && (#[trigger] w2.characters[c]).party_membership is Some implies
            exists|i: int| 0 <= i < w2.parties.len()
                && (#[trigger] w2.parties[i]).entity == w2.characters[c].party_membership->0
                && is_online_member(w2.parties[i], w2.characters[c].entity) by {
            assert(c < n);
            assert(w2.characters[c] == w.characters[c]);
        }
    }
}

fn offline_match_position(members: &Vec<PartyMember>, id: u32, name: &String) -> (result: Option<usize>)
    ensures
        match result {
            Some(k) => k < members.len() && members_view(members@)[k as int] == PartyMemberModel::Offline(id, name@),
            None => forall|k: int| 0 <= k < members.len() ==> members_view(members@)[k] != PartyMemberModel::Offline(id, name@),
        },
{
    let mut i: usize = 0;
    while i < members.len()
        invariant
            i <= members.len(),
            forall|k: int| 0 <= k < i ==> members_view(members@)[k] != PartyMemberModel::Offline(id, name@),
        decreases members.len() - i,
    {
        match &members[i] {
            PartyMember::Offline(member_id, member_name) => {
                if *member_id == id && member_name.eq(name) {
                    return Some(i);
                }
            },
            PartyMember::Online(_) => {},
        }
        i += 1;
    }
    None
}

/// A character connects. If a party lists it offline under its id and
/// name, it rejoins that party, whose entity is returned.
pub fn party_member_reconnect(world: &mut PartyWorld, entity: u64, character_id: u32, name: String) -> (result: Option<u64>)
    requires
        party_world_wf(old(world)@),
    ensures
        (final(world)@, result) == spec_reconnect(old(world)@, entity, character_id, name@),
        reconnect_ok(old(world)@, entity, character_id, name@) ==> party_world_wf(final(world)@),
{
    let ghost w = world@;
    proof {
        if reconnect_ok(w, entity, character_id, name@) {
            lemma_reconnect_wf(w, entity, character_id, name@);
        }
    }
    match world.find_offline_match(character_id, &name) {
        Some((i, k)) => {
            proof {
                let (ci, ck) = choose|a: int, b: int| offline_match(w, a, b, character_id, name@);
                if ci != i as int || ck != k as int {
                    assert(offline_at(w, ci, ck) && offline_at(w, i as int, k as int));
                    assert(offline_id(w, ci, ck) != offline_id(w, i as int, k as int));
                }
            }
            Some(world.rejoin(i, k, entity, character_id, name))
        },
        None => {
            world.characters.push(PartyMembershipQuery { entity, character_id, name, party_membership: None });
            assert(world@.characters =~= spec_reconnect(w, entity, character_id, name@).0.characters);
            assert(world@.parties =~= w.parties);
            None
        },
    }
}

impl PartyWorld {
    /// The party and position of the offline entry of character `id`
    /// named `name`, the first in party order.
    fn find_offline_match(&self, id: u32, name: &String) -> (result: Option<(usize, usize)>)
        ensures
            match result {
                Some((i, k)) => offline_match(self@, i as int, k as int, id, name@),
                None => !exists|a: int, b: int| offline_match(self@, a, b, id, name@),
            },
    {
        let mut i: usize = 0;
        while i < self.parties.len()
            invariant
                i <= self.parties.len(),
                forall|j: int, k: int| 0 <= j < i ==> !offline_match(self@, j, k, id, name@),
            decreases self.parties.len() - i,
        {
            match offline_match_position(&self.parties[i].members, id, name) {
                Some(k) => {
                    assert(offline_match(self@, i as int, k as int, id, name@));
                    return Some((i, k));
                },
                None => {
                    assert forall|k: int| !offline_match(self@, i as int, k, id, name@) by {
                        if offline_match(self@, i as int, k, id, name@) {
                            assert(members_view(self.parties@[i as int].members@)[k] == PartyMemberModel::Offline(id, name@));
                        }
                    }
                },
            }
            i += 1;
        }
        None
    }
}

impl PartyWorld {
    /// The offline entry at `k` of party `pi` turns online for `entity`,
    /// which enters the world as a member of that party.
    fn rejoin(&mut self, pi: usize, k: usize, entity: u64, character_id: u32, name: String) -> (party_entity: u64)
        requires
            pi < old(self).parties.len(),
            k < old(self).parties[pi as int].members.len(),
        ensures
            party_entity == old(self)@.parties[pi as int].entity,
            final(self)@ == (PartyWorldModel {
                parties: old(self)@.parties.update(pi as int, PartyModel {
                    members: old(self)@.parties[pi as int].members.update(k as int, PartyMemberModel::Online(entity)),
                    ..old(self)@.parties[pi as int]
                }),
                characters: old(self)@.characters.push(PartyCharacterModel {
                    entity, character_id, name: name@, party_membership: Some(old(self)@.parties[pi as int].entity) }),
            }),
    {
        let ghost w = self@;
        let mut party = self.take_party(pi);
        assert(party.members.len() == w.parties[pi as int].members.len());
        party.members.set(k, PartyMember::Online(entity));
        let party_entity = party.entity;
        assert(party@.members =~= w.parties[pi as int].members.update(k as int, PartyMemberModel::Online(entity)));
        self.parties.set(pi, party);
        self.characters.push(PartyMembershipQuery { entity, character_id, name, party_membership: Some(party_entity) });
        assert(self@.parties =~= w.parties.update(pi as int, PartyModel {
            members: w.parties[pi as int].members.update(k as int, PartyMemberModel::Online(entity)), ..w.parties[pi as int] }));
        assert(self@.characters =~= w.characters.push(PartyCharacterModel {
            entity, character_id, name: name@, party_membership: Some(party_entity) }));
        party_entity
    }
}

/// The sum of the known levels of a party's members.
pub open spec fn level_total(levels: Seq<Option<u32>>) -> int
    decreases levels.len(),
{
    if levels.len() == 0 {
        0
    } else {
        level_total(levels.drop_last()) + match levels.last() {
            Some(l) => l as int,
            None => 0,
        }
    }
}

/// How many members' levels are known.
pub open spec fn level_count(levels: Seq<Option<u32>>) -> int
    decreases levels.len(),
{
    if levels.len() == 0 {
        0
    } else {
        level_count(levels.drop_last()) + if levels.last() is Some { 1int } else { 0 }
    }
}

proof fn lemma_level_count_bound(levels: Seq<Option<u32>>)
    ensures
        0 <= level_count(levels) <= levels.len(),
        0 <= level_total(levels),
    decreases levels.len(),
{
    if levels.len() > 0 {
        lemma_level_count_bound(levels.drop_last());
    }
}

/// The average level of a party's online members, given the level of each
/// member (`None` for a member whose level is unknown or who is offline);
/// `None` when no level is known, and the average stays as it was.
pub fn party_average_member_level(levels: &Vec<Option<u32>>) -> (result: Option<i32>)
    requires
        level_total(levels@) <= i32::MAX,
        levels@.len() <= i32::MAX,
    ensures
        level_count(levels@) == 0 ==> result is None,
        level_count(levels@) != 0 ==> result == Some((level_total(levels@) / level_count(levels@)) as i32),
{
    let mut total: u32 = 0;
    let mut count: usize = 0;
    let mut i: usize = 0;
    proof { lemma_level_count_bound(levels@); }
    while i < levels.len()
        invariant
            i <= levels.len(),
            levels.len() <= usize::MAX,
            total == level_total(levels@.take(i as int)),
            count == level_count(levels@.take(i as int)),
            count <= i,
            level_total(levels@) <= i32::MAX,
            levels@.len() <= i32::MAX,
        decreases levels.len() - i,
    {
        assert(levels@.take(i as int + 1).drop_last() =~= levels@.take(i as int));
        proof {
            lemma_level_total_prefix(levels@, i as int + 1);
        }
        match levels[i] {
            Some(level) => {
                total = total + level;
                count = count + 1;
            },
            None => {},
        }
        i += 1;
    }
    assert(levels@.take(i as int) =~= levels@);
    if count == 0 {
        None
    } else {
        let t: i32 = total as i32;
        let n: i32 = count as i32;
        assert(t == level_total(levels@) && n == level_count(levels@) && n > 0);
        Some(t / n)
    }
}

proof fn lemma_level_total_prefix(levels: Seq<Option<u32>>, n: int)
    requires
        0 <= n <= levels.len(),
    ensures
        level_total(levels.take(n)) <= level_total(levels),
    decreases levels.len() - n,
{
    if n < levels.len() {
        lemma_level_total_prefix(levels, n + 1);
        assert(levels.take(n + 1).drop_last() =~= levels.take(n));
    } else {
        assert(levels.take(n) =~= levels);
    }
}

/// What a party shows of an online member.
#[derive(Clone, Debug)]
pub struct PartyMemberInfoQuery {
    pub entity: u64,
    pub character_id: u32,
    pub name: String,
    pub entity_id: u64,
    pub health_points: i32,
    pub max_health: i32,
    pub concentration: i32,
    pub health_recovery: i32,
    pub mana_recovery: i32,
    pub stamina: u32,
}

/// A line of a party's member list: an online member's details, or an
/// offline member's id and name.
#[derive(Clone, Debug)]
pub enum PartyMemberInfo {
    Online(PartyMemberInfoQuery),
    Offline(u32, String),
}

/// A member's details as the rules read them.
pub struct PartyMemberInfoQueryModel {
    pub entity: u64,
    pub character_id: u32,
    pub name: Seq<char>,
    pub entity_id: u64,
    pub health_points: i32,
    pub max_health: i32,
    pub concentration: i32,
    pub health_recovery: i32,
    pub mana_recovery: i32,
    pub stamina: u32,
}

pub open spec fn query_view(q: PartyMemberInfoQuery) -> PartyMemberInfoQueryModel {
    PartyMemberInfoQueryModel {
        entity: q.entity,
        character_id: q.character_id,
        name: q.name@,
        entity_id: q.entity_id,
        health_points: q.health_points,
        max_health: q.max_health,
        concentration: q.concentration,
        health_recovery: q.health_recovery,
        mana_recovery: q.mana_recovery,
        stamina: q.stamina,
    }
}

/// A line of the member list as the rules read it.
pub enum PartyMemberInfoModel {
    Online(PartyMemberInfoQueryModel),
    Offline(u32, Seq<char>),
}

pub open spec fn info_view(info: PartyMemberInfo) -> PartyMemberInfoModel {
    match info {
        PartyMemberInfo::Online(q) => PartyMemberInfoModel::Online(query_view(q)),
        PartyMemberInfo::Offline(id, name) => PartyMemberInfoModel::Offline(id, name@),
    }
}

/// `k` is the first details entry for this entity.
pub open spec fn info_at(infos: Seq<PartyMemberInfoQuery>, entity: u64, k: int) -> bool {
    &&& 0 <= k < infos.len()
    &&& infos[k].entity == entity
    &&& forall|j: int| 0 <= j < k ==> infos[j].entity != entity
}

/// Some details entry is for this entity.
pub open spec fn has_info(infos: Seq<PartyMemberInfoQuery>, entity: u64) -> bool {
    exists|k: int| info_at(infos, entity, k)
}

/// The line listing one member: an online member with the first details
/// found for its entity (none when there are none), an offline member with
/// its id and name.
pub open spec fn membership_line(m: PartyMemberModel, infos: Seq<PartyMemberInfoQuery>) -> Option<PartyMemberInfoModel> {
    match m {
        PartyMemberModel::Online(e) => if has_info(infos, e) {
            Some(PartyMemberInfoModel::Online(query_view(infos[choose|k: int| info_at(infos, e, k)])))
        } else {
            None
        },
        PartyMemberModel::Offline(id, name) => Some(PartyMemberInfoModel::Offline(id, name)),
    }
}

/// The lines of the members, in party order.
pub open spec fn membership_lines(members: Seq<PartyMemberModel>, infos: Seq<PartyMemberInfoQuery>) -> Seq<PartyMemberInfoModel>
    decreases members.len(),
{
    if members.len() == 0 {
        Seq::empty()
    } else {
        let earlier = membership_lines(members.drop_last(), infos);
        match membership_line(members.last(), infos) {
            Some(line) => earlier.push(line),
            None => earlier,
        }
    }
}

fn copy_member_info(q: &PartyMemberInfoQuery) -> (c: PartyMemberInfoQuery)
    ensures
        query_view(c) == query_view(*q),
{
    PartyMemberInfoQuery {
        entity: q.entity,
        character_id: q.character_id,
        name: q.name.clone(),
        entity_id: q.entity_id,
        health_points: q.health_points,
        max_health: q.max_health,
        concentration: q.concentration,
        health_recovery: q.health_recovery,
        mana_recovery: q.mana_recovery,
        stamina: q.stamina,
    }
}

fn find_member_info(infos: &Vec<PartyMemberInfoQuery>, entity: u64) -> (result: Option<usize>)
    ensures
        match result {
            Some(k) => info_at(infos@, entity, k as int),
            None => forall|j: int| 0 <= j < infos@.len() ==> infos@[j].entity != entity,
        },
{
    let mut k: usize = 0;
    while k < infos.len()
        invariant
            k <= infos.len(),
            forall|j: int| 0 <= j < k ==> infos@[j].entity != entity,
        decreases infos.len() - k,
    {
        if infos[k].entity == entity {
            return Some(k);
        }
        k += 1;
    }
    None
}

proof fn lemma_info_at_unique(infos: Seq<PartyMemberInfoQuery>, entity: u64, a: int, b: int)
    requires
        info_at(infos, entity, a),
        info_at(infos, entity, b),
    ensures
        a == b,
{
    if a < b { assert(infos[a].entity != entity); }
    if b < a { assert(infos[b].entity != entity); }
}

/// The member list of a party, in member order: an online member is
/// listed with the details of its character, or left out when those are
/// not found; an offline member with its id and name.
pub fn get_party_membership_info(members: &Vec<PartyMember>, infos: &Vec<PartyMemberInfoQuery>) -> (list: Vec<PartyMemberInfo>)
    ensures
        list@.map_values(|info: PartyMemberInfo| info_view(info)) == membership_lines(members_view(members@), infos@),
{
    let ghost m = members_view(members@);
    let mut list: Vec<PartyMemberInfo> = Vec::new();
    let mut k: usize = 0;
    while k < members.len()
        invariant
            k <= members.len(),
            m == members_view(members@),
            list@.map_values(|info: PartyMemberInfo| info_view(info)) == membership_lines(m.take(k as int), infos@),
        decreases members.len() - k,
    {
        proof {
            assert(m.take(k as int + 1).drop_last() =~= m.take(k as int));
            assert(m.take(k as int + 1).last() == members@[k as int]@);
        }
        let ghost before = list@;
        match &members[k] {
            PartyMember::Online(e) => {
                match find_member_info(infos, *e) {
                    Some(i) => {
                        let q = copy_member_info(&infos[i]);
                        list.push(PartyMemberInfo::Online(q));
                        proof {
                            assert(has_info(infos@, *e));
                            let c = choose|c: int| info_at(infos@, *e, c);
                            lemma_info_at_unique(infos@, *e, c, i as int);
                            assert(list@.map_values(|info: PartyMemberInfo| info_view(info))
                                =~= before.map_values(|info: PartyMemberInfo| info_view(info)).push(info_view(list@[list@.len() - 1])));
                        }
                    },
                    None => {
                        assert(!has_info(infos@, *e));
                    },
                }
            },
            PartyMember::Offline(id, name) => {
                list.push(PartyMemberInfo::Offline(*id, name.clone()));
                proof {
                    assert(list@.map_values(|info: PartyMemberInfo| info_view(info))
                        =~= before.map_values(|info: PartyMemberInfo| info_view(info)).push(info_view(list@[list@.len() - 1])));
                }
            },
        }
        k += 1;
    }
    assert(m.take(members.len() as int) =~= m);
    list
}

/// The online members, in party order, that a party message goes to: all
/// but `except`.
pub open spec fn message_recipients(members: Seq<PartyMemberModel>, except: Option<u64>) -> Seq<u64>
    decreases members.len(),
{
    if members.len() == 0 {
        Seq::empty()
    } else {
        let earlier = message_recipients(members.drop_last(), except);
        match members.last() {
            PartyMemberModel::Online(e) => if except == Some(e) { earlier } else { earlier.push(e) },
            PartyMemberModel::Offline(_, _) => earlier,
        }
    }
}

/// The entities a message to the party's members goes to: each online
/// member in turn, skipping `except`.
pub fn party_message_recipients(members: &Vec<PartyMember>, except: Option<u64>) -> (recipients: Vec<u64>)
    ensures
        recipients@ == message_recipients(members_view(members@), except),
{
    let ghost m = members_view(members@);
    let mut recipients: Vec<u64> = Vec::new();
    let mut i: usize = 0;
    while i < members.len()
        invariant
            i <= members.len(),
            m == members_view(members@),
            recipients@ == message_recipients(m.take(i as int), except),
        decreases members.len() - i,
    {
        proof {
            assert(m.take(i as int + 1).drop_last() =~= m.take(i as int));
            assert(m.take(i as int + 1).last() == members@[i as int]@);
        }
        match &members[i] {
            PartyMember::Online(e) => {
                if except != Some(*e) {
                    recipients.push(*e);
                }
            },
            PartyMember::Offline(_, _) => {},
        }
        i += 1;
    }
    assert(m.take(members.len() as int) =~= m);
    recipients
}

/// A member that disconnects and then connects again, as a new entity under
/// the same character id and name, is back in its party at the same place,
/// listed online under the new entity, and belongs to the party again; when
/// the party was dissolved as it left (no member was online any more), the
/// character comes back without a party.
pub proof fn law_reconnect_after_disconnect(w: PartyWorldModel, entity: u64, new_entity: u64)
    requires
        party_world_wf(w),
        membership_of(w, entity) is Some,
        !has_character(spec_disconnect(w, entity).0, new_entity),
    ensures
        ({
            let c = w.characters[char_idx(w, entity)];
            let pe = c.party_membership->0;
            let p = w.parties[party_idx(w, pe)];
            let k = online_position(p.members, entity);
            let w1 = spec_disconnect(w, entity).0;
            let (w2, rejoined) = spec_reconnect(w1, new_entity, c.character_id, c.name);
            if exists|j: int| party_index(w1, pe, j) {
                &&& rejoined == Some(pe)
                &&& exists|j: int| party_index(w2, pe, j)
                    && w2.parties[j].members == p.members.update(k, PartyMemberModel::Online(new_entity))
                &&& membership_of(w2, new_entity) == Some(pe)
            } else {
                &&& rejoined is None
                &&& membership_of(w2, new_entity) is None
            }
        }),
{
    let ci = char_idx(w, entity);
    assert(has_character(w, entity));
    assert(character_index(w, entity, ci));
    let c = w.characters[ci];
    let id = c.character_id;
    let name = c.name;
    let pe = c.party_membership->0;
    let wi = choose|i: int| 0 <= i < w.parties.len()
        && (#[trigger] w.parties[i]).entity == w.characters[ci].party_membership->0
        && is_online_member(w.parties[i], w.characters[ci].entity);
    assert(party_index(w, pe, wi));
    let pi = party_idx(w, pe);
    assert(party_index(w, pe, pi));
    lemma_party_index_unique(w, pe, pi, wi);
    let p = w.parties[pi];
    let k = online_position(p.members, entity);
    assert(0 <= k < p.members.len() && p.members[k] == PartyMemberModel::Online(entity));
    let m = p.members.update(k, PartyMemberModel::Offline(id, name));
    let w1 = spec_disconnect(w, entity).0;
    lemma_disconnect_wf(w, entity);
    let w1a = without_character(w, ci);
    let n = w1.characters.len() as int;
    let (w2, rejoined) = spec_reconnect(w1, new_entity, id, name);
    if p.owner != entity || first_online(m) is Some {
        assert(w1.parties.len() == w.parties.len());
        assert(w1.parties[pi].members == m);
        assert(w1.parties[pi].entity == pe);
        assert(party_index(w1, pe, pi));
        assert(offline_at(w1, pi, k));
        assert(offline_match(w1, pi, k, id, name));
        assert forall|i2: int, k2: int| offline_match(w1, i2, k2, id, name) implies i2 == pi && k2 == k by {
            if i2 != pi || k2 != k {
                assert(offline_id(w1, i2, k2) != offline_id(w1, pi, k));
            }
        }
        let (i3, k3) = choose|i: int, k: int| offline_match(w1, i, k, id, name);
        assert(offline_match(w1, i3, k3, id, name));
        assert(i3 == pi && k3 == k);
        assert(w2.parties[pi].members =~= p.members.update(k, PartyMemberModel::Online(new_entity)));
        assert(party_index(w2, pe, pi));
        assert(character_index(w2, new_entity, n));
        assert forall|i: int| character_index(w2, new_entity, i) implies i == n by {
            if i < n {
                assert(w2.characters[i] == w1.characters[i]);
                assert(character_index(w1, new_entity, i));
            }
        }
        assert(w2.characters[n].party_membership == Some(pe));
    } else {
        let wp = with_party(w1a, pi, PartyModel { members: m, ..p });
        assert(w1 == spec_delete_party(wp, pi));
        assert forall|i: int| 0 <= i < w1.parties.len() implies
            #[trigger] w1.parties[i] == w.parties[if i < pi { i } else { i + 1 }] by {}
        assert forall|j: int| !party_index(w1, pe, j) by {
            if party_index(w1, pe, j) {
                let j2 = if j < pi { j } else { j + 1 };
                assert(w.parties[j2].entity == pe);
                assert(j2 != pi);
                assert(w.parties[j2].entity != w.parties[pi].entity);
            }
        }
        assert forall|i2: int, k2: int| !offline_match(w1, i2, k2, id, name) by {
            if offline_match(w1, i2, k2, id, name) {
                let j2 = if i2 < pi { i2 } else { i2 + 1 };
                assert(w1.parties[i2] == w.parties[j2]);
                assert(offline_at(w, j2, k2));
                assert(offline_id(w, j2, k2) != w.characters[ci].character_id);
            }
        }
        assert(character_index(w2, new_entity, n));
        assert forall|i: int| character_index(w2, new_entity, i) implies i == n by {
            if i < n {
                assert(w2.characters[i] == w1.characters[i]);
                assert(character_index(w1, new_entity, i));
            }
        }
    }
}

} // verus!

use vstd::prelude::*;
use crate::stats::{Inventory, Money};
use crate::storage::{get_clan_path, json_file_name, path_join, StorageWrite};

verus! {

/// The level a character needs to found a clan.
pub const CLAN_CREATE_MIN_LEVEL: u32 = 30;

/// What founding a clan costs.
pub const CLAN_CREATE_COST: i64 = 1000000;

/// The ranks of clan members.
#[derive(Clone, Copy, Debug, PartialEq, Eq, Structural)]
pub enum ClanMemberPosition {
    Penalty,
    Junior,
    Senior,
    Veteran,
    Commander,
    DeputyMaster,
    Master,
}

/// A clan's emblem: a premade one, or a custom one known by its checksum.
#[derive(Clone, Copy, Debug, PartialEq, Eq, Structural)]
pub enum ClanMark {
    Premade { background: u16, foreground: u16 },
    Custom { crc16: u16 },
}

/// A clan member: connected (by entity) or not (with what the clan
/// remembers of it).
#[derive(Clone, Debug)]
pub enum ClanMember {
    Online { entity: u64, position: ClanMemberPosition, contribution: u64 },
    Offline { name: String, position: ClanMemberPosition, contribution: u64, level: u32, job: u16 },
}

pub enum ClanMemberModel {
    Online { entity: u64, position: ClanMemberPosition, contribution: u64 },
    Offline { name: Seq<char>, position: ClanMemberPosition, contribution: u64, level: u32, job: u16 },
}

impl View for ClanMember {
    type V = ClanMemberModel;

    open spec fn view(&self) -> ClanMemberModel {
        match self {
            ClanMember::Online { entity, position, contribution } =>
                ClanMemberModel::Online { entity: *entity, position: *position, contribution: *contribution },
            ClanMember::Offline { name, position, contribution, level, job } =>
                ClanMemberModel::Offline { name: name@, position: *position, contribution: *contribution, level: *level, job: *job },
        }
    }
}

pub open spec fn members_view(members: Seq<ClanMember>) -> Seq<ClanMemberModel> {
    members.map_values(|m: ClanMember| m@)
}

/// A clan in play. Its level is never zero.
#[derive(Clone, Debug)]
pub struct Clan {
    pub unique_id: u32,
    pub name: String,
    pub description: String,
    pub mark: ClanMark,
    pub money: Money,
    pub points: u64,
    pub level: u32,
    pub skills: Vec<u16>,
    pub members: Vec<ClanMember>,
}

/// A stored clan member.
#[derive(Clone, Debug)]
pub struct ClanStorageMember {
    pub name: String,
    pub position: ClanMemberPosition,
    pub contribution: u64,
}

impl ClanStorageMember {
    /// A member who has contributed nothing yet.
    pub fn new(name: String, position: ClanMemberPosition) -> (member: ClanStorageMember)
        ensures
            member.name@ == name@,
            member.position == position,
            member.contribution == 0,
    {
        ClanStorageMember { name, position, contribution: 0 }
    }
}

/// A stored clan.
#[derive(Clone, Debug)]
pub struct ClanStorage {
    pub name: String,
    pub description: String,
    pub mark: ClanMark,
    pub money: Money,
    pub points: u64,
    pub level: u32,
    pub skills: Vec<u16>,
    pub members: Vec<ClanStorageMember>,
}

impl ClanStorage {
    /// A new clan: level one, no money, no points, no skill, no member.
    pub fn new(name: String, description: String, mark: ClanMark) -> (clan: ClanStorage)
        ensures
            clan.name@ == name@,
            clan.description@ == description@,
            clan.mark == mark,
            clan.money == Money(0),
            clan.points == 0,
            clan.level == 1,
            clan.skills@.len() == 0,
            clan.members@.len() == 0,
    {
        ClanStorage {
            name,
            description,
            mark,
            money: Money(0),
            points: 0,
            level: 1,
            skills: Vec::new(),
            members: Vec::new(),
        }
    }

    /// The path the clan is stored at.
    pub fn path(&self, storage_dir: &str) -> (path: String)
        ensures
            path@ == path_join(storage_dir@, json_file_name(self.name@)),
    {
        get_clan_path(storage_dir, self.name.as_str())
    }

    /// The write that stores a new clan, `json` being its record: it must
    /// not replace a clan of the same name.
    pub fn try_create(&self, storage_dir: &str, json: String) -> (write: StorageWrite)
        ensures
            write.path@ == path_join(storage_dir@, json_file_name(self.name@)),
            write.contents@ == json@,
            !write.allow_overwrite,
    {
        StorageWrite { path: self.path(storage_dir), contents: json, allow_overwrite: false }
    }

    /// The write that stores the clan over its previous record, `json`
    /// being its record.
    pub fn save(&self, storage_dir: &str, json: String) -> (write: StorageWrite)
        ensures
            write.path@ == path_join(storage_dir@, json_file_name(self.name@)),
            write.contents@ == json@,
            write.allow_overwrite,
    {
        StorageWrite { path: self.path(storage_dir), contents: json, allow_overwrite: true }
    }
}

/// The character founding a clan, as the clan rules read it.
#[derive(Clone, Debug)]
pub struct CreatorQuery {
    pub client_entity_id: u64,
    pub name: String,
    pub level: u32,
    pub inventory: Inventory,
    pub clan_membership: Option<u64>,
}

/// Why a clan could not be founded.
#[derive(Clone, Copy, Debug, PartialEq, Eq, Structural)]
pub enum ClanCreateError {
    Failed,
    NameExists,
    UnmetCondition,
}

/// The checks before a clan is founded, and its price: a character already
/// in a clan fails; one under the level or short of the price does not
/// meet the conditions; a name taken is refused. On success the price is
/// taken from the inventory and returned.
pub fn clan_create_check(has_clan: bool, level: u32, name_exists: bool, inventory: &mut Inventory)
    -> (result: Result<Money, ClanCreateError>)
    ensures
        has_clan ==> result == Err::<Money, ClanCreateError>(ClanCreateError::Failed) && *final(inventory) == *old(inventory),
        !has_clan && level < CLAN_CREATE_MIN_LEVEL ==>
            result == Err::<Money, ClanCreateError>(ClanCreateError::UnmetCondition) && *final(inventory) == *old(inventory),
        !has_clan && level >= CLAN_CREATE_MIN_LEVEL && name_exists ==>
            result == Err::<Money, ClanCreateError>(ClanCreateError::NameExists) && *final(inventory) == *old(inventory),
        !has_clan && level >= CLAN_CREATE_MIN_LEVEL && !name_exists ==> if old(inventory).money.0 >= CLAN_CREATE_COST {
            result == Ok::<Money, ClanCreateError>(Money(CLAN_CREATE_COST))
                && final(inventory).money.0 == old(inventory).money.0 - CLAN_CREATE_COST
        } else {
            result == Err::<Money, ClanCreateError>(ClanCreateError::UnmetCondition) && *final(inventory) == *old(inventory)
        },
{
    if has_clan {
        return Err(ClanCreateError::Failed);
    }
    if level < CLAN_CREATE_MIN_LEVEL {
        return Err(ClanCreateError::UnmetCondition);
    }
    if name_exists {
        return Err(ClanCreateError::NameExists);
    }
    match inventory.try_take_money(Money(CLAN_CREATE_COST)) {
        Ok(money) => Ok(money),
        Err(_) => Err(ClanCreateError::UnmetCondition),
    }
}

/// The record of a clan being founded: a new clan whose only member is the
/// founder, as master, having contributed nothing.
pub fn founded_clan_storage(name: String, description: String, mark: ClanMark, founder: String) -> (clan: ClanStorage)
    ensures
        clan.name@ == name@,
        clan.description@ == description@,
        clan.mark == mark,
        clan.money == Money(0),
        clan.points == 0,
        clan.level == 1,
        clan.skills@.len() == 0,
        clan.members@.len() == 1,
        clan.members@[0].name@ == founder@,
        clan.members@[0].position == ClanMemberPosition::Master,
        clan.members@[0].contribution == 0,
{
    let mut clan = ClanStorage::new(name, description, mark);
    clan.members.push(ClanStorageMember::new(founder, ClanMemberPosition::Master));
    clan
}

/// When the founded clan could not be stored, the price goes back to the
/// founder's inventory (which keeps its money if the sum would leave the
/// range).
pub fn clan_create_refund(inventory: &mut Inventory, price: Money)
    ensures
        i64::MIN <= old(inventory).money.0 + price.0 <= i64::MAX ==> final(inventory).money.0 == old(inventory).money.0 + price.0,
        !(i64::MIN <= old(inventory).money.0 + price.0 <= i64::MAX) ==> *final(inventory) == *old(inventory),
{
    let _ = inventory.try_add_money(price);
}

/// The clan founded by `creator`, from its stored record: the founder is
/// its only member, online, as master.
pub fn new_clan(unique_id: u32, storage: ClanStorage, creator: u64) -> (clan: Clan)
    ensures
        clan.unique_id == unique_id,
        clan.name@ == storage.name@,
        clan.description@ == storage.description@,
        clan.mark == storage.mark,
        clan.money == storage.money,
        clan.points == storage.points,
        clan.level == storage.level,
        clan.skills@ == storage.skills@,
        members_view(clan.members@) == seq![ClanMemberModel::Online {
            entity: creator, position: ClanMemberPosition::Master, contribution: 0 }],
{
    let mut members: Vec<ClanMember> = Vec::new();
    members.push(ClanMember::Online { entity: creator, position: ClanMemberPosition::Master, contribution: 0 });
    assert(members_view(members@) =~= seq![ClanMemberModel::Online {
        entity: creator, position: ClanMemberPosition::Master, contribution: 0 }]);
    Clan {
        unique_id,
        name: storage.name,
        description: storage.description,
        mark: storage.mark,
        money: storage.money,
        points: storage.points,
        level: storage.level,
        skills: storage.skills,
        members,
    }
}

/// The member holds `entity` online.
pub open spec fn is_online_entity(m: ClanMemberModel, entity: u64) -> bool {
    m matches ClanMemberModel::Online { entity: e, .. } && e == entity
}

/// The position of the online member with this entity.
pub open spec fn online_at(members: Seq<ClanMemberModel>, entity: u64, k: int) -> bool {
    &&& 0 <= k < members.len()
    &&& is_online_entity(members[k], entity)
    &&& forall|j: int| 0 <= j < k ==> !is_online_entity(#[trigger] members[j], entity)
}

pub open spec fn has_online(members: Seq<ClanMemberModel>, entity: u64) -> bool {
    exists|k: int| 0 <= k < members.len() && (is_online_entity(members[k], entity))
}

fn find_online_member(members: &Vec<ClanMember>, entity: u64) -> (result: Option<usize>)
    ensures
        match result {
            Some(k) => online_at(members_view(members@), entity, k as int),
            None => !has_online(members_view(members@), entity),
        },
{
    let ghost m = members_view(members@);
    let mut k: usize = 0;
    while k < members.len()
        invariant
            k <= members.len(),
            m == members_view(members@),
            forall|j: int| 0 <= j < k ==> !is_online_entity(#[trigger] m[j], entity),
        decreases members.len() - k,
    {
        match &members[k] {
            ClanMember::Online { entity: e, .. } => {
                if *e == entity {
                    return Some(k);
                }
            },
            ClanMember::Offline { .. } => {},
        }
        k += 1;
    }
    None
}

impl Clan {
    /// A member disconnects: its online entry becomes an offline one that
    /// keeps its rank and contribution, with its name, level and job.
    /// Returns whether the clan listed it online.
    pub fn member_disconnect(&mut self, entity: u64, name: String, level: u32, job: u16) -> (found: bool)
        ensures
            found == has_online(members_view(old(self).members@), entity),
            found ==> exists|k: int| online_at(members_view(old(self).members@), entity, k) && {
                let m = members_view(old(self).members@)[k];
                members_view(final(self).members@) == members_view(old(self).members@).update(k,
                    ClanMemberModel::Offline {
                        name: name@,
                        position: m->Online_position,
                        contribution: m->Online_contribution,
                        level,
                        job,
                    })
            },
            !found ==> members_view(final(self).members@) == members_view(old(self).members@),
            final(self).level == old(self).level,
            final(self).money == old(self).money,
            final(self).points == old(self).points,
            final(self).skills@ == old(self).skills@,
    {
        let ghost before = members_view(self.members@);
        match find_online_member(&self.members, entity) {
            Some(k) => {
                let (position, contribution) = match &self.members[k] {
                    ClanMember::Online { position, contribution, .. } => (*position, *contribution),
                    ClanMember::Offline { position, contribution, .. } => (*position, *contribution),
                };
                self.members.set(k, ClanMember::Offline { name, position, contribution, level, job });
                assert(members_view(self.members@) =~= before.update(k as int,
                    ClanMemberModel::Offline { name: name@, position, contribution, level, job }));
                true
            },
            None => false,
        }
    }

    /// Changes the level by `delta`; a result that leaves `1..=u32::MAX`
    /// changes nothing. Returns whether the level changed.
    pub fn add_level(&mut self, delta: i32) -> (changed: bool)
        ensures
            changed == (1 <= old(self).level + delta <= u32::MAX),
            changed ==> final(self).level == old(self).level + delta,
            !changed ==> final(self).level == old(self).level,
            final(self).money == old(self).money,
            final(self).points == old(self).points,
            members_view(final(self).members@) == members_view(old(self).members@),
            final(self).skills@ == old(self).skills@,
    {
        let level = self.level as i64 + delta as i64;
        if 1 <= level && level <= 0xffff_ffff {
            self.level = level as u32;
            true
        } else {
            false
        }
    }

    /// Adds money, unless the sum leaves the range of an `i64`. Returns
    /// whether the money changed.
    pub fn add_money(&mut self, money: i64) -> (changed: bool)
        ensures
            changed == (i64::MIN <= old(self).money.0 + money <= i64::MAX),
            changed ==> final(self).money.0 == old(self).money.0 + money,
            !changed ==> final(self).money == old(self).money,
            final(self).level == old(self).level,
            final(self).points == old(self).points,
            members_view(final(self).members@) == members_view(old(self).members@),
            final(self).skills@ == old(self).skills@,
    {
        match self.money.0.checked_add(money) {
            Some(m) => {
                self.money = Money(m);
                true
            },
            None => false,
        }
    }

    /// Changes the points by `delta`, unless the result leaves the range
    /// of a `u64`. Returns whether the points changed.
    pub fn add_points(&mut self, delta: i64) -> (changed: bool)
        ensures
            changed == (0 <= old(self).points + delta <= u64::MAX),
            changed ==> final(self).points == old(self).points + delta,
            !changed ==> final(self).points == old(self).points,
            final(self).level == old(self).level,
            final(self).money == old(self).money,
            members_view(final(self).members@) == members_view(old(self).members@),
            final(self).skills@ == old(self).skills@,
    {
        if delta >= 0 {
            match self.points.checked_add(delta as u64) {
                Some(p) => {
                    self.points = p;
                    true
                },
                None => false,
            }
        } else {
            let amount: u64 = if delta == i64::MIN { 0x8000_0000_0000_0000u64 } else { (-delta) as u64 };
            if self.points >= amount {
                self.points = self.points - amount;
                true
            } else {
                false
            }
        }
    }

    /// Learns a skill the clan does not have yet. Returns whether it was
    /// added.
    pub fn add_skill(&mut self, skill_id: u16) -> (added: bool)
        ensures
            added == !old(self).skills@.contains(skill_id),
            added ==> final(self).skills@ == old(self).skills@.push(skill_id),
            !added ==> final(self).skills@ == old(self).skills@,
            final(self).level == old(self).level,
            final(self).money == old(self).money,
            final(self).points == old(self).points,
            members_view(final(self).members@) == members_view(old(self).members@),
    {
        if has_skill(&self.skills, skill_id) {
            false
        } else {
            self.skills.push(skill_id);
            true
        }
    }

    /// Forgets a skill the clan has, every copy of it. Returns whether it
    /// was there.
    pub fn remove_skill(&mut self, skill_id: u16) -> (removed: bool)
        ensures
            removed == old(self).skills@.contains(skill_id),
            final(self).skills@ == without_skill(old(self).skills@, skill_id),
            final(self).level == old(self).level,
            final(self).money == old(self).money,
            final(self).points == old(self).points,
            members_view(final(self).members@) == members_view(old(self).members@),
    {
        let ghost before = self.skills@;
        if !has_skill(&self.skills, skill_id) {
            proof { lemma_filter_keeps_all(before, skill_id); }
            return false;
        }
        let mut kept: Vec<u16> = Vec::new();
        let mut i: usize = 0;
        while i < self.skills.len()
            invariant
                i <= self.skills.len(),
                self.skills@ == before,
                kept@ == without_skill(before.take(i as int), skill_id),
            decreases self.skills.len() - i,
        {
            assert(before.take(i as int + 1).drop_last() =~= before.take(i as int));
            proof { reveal(Seq::filter); }
            if self.skills[i] != skill_id {
                kept.push(self.skills[i]);
            }
            i += 1;
        }
        assert(before.take(i as int) =~= before);
        self.skills = kept;
        true
    }
}

proof fn lemma_filter_keeps_all(s: Seq<u16>, skill_id: u16)
    requires
        !s.contains(skill_id),
    ensures
        without_skill(s, skill_id) == s,
    decreases s.len(),
{
    if s.len() > 0 {
        assert(!s.drop_last().contains(skill_id)) by {
            if s.drop_last().contains(skill_id) {
                let j = choose|j: int| 0 <= j < s.drop_last().len() && s.drop_last()[j] == skill_id;
                assert(s[j] == skill_id);
            }
        }
        lemma_filter_keeps_all(s.drop_last(), skill_id);
        assert(s.last() != skill_id) by {
            if s.last() == skill_id { assert(s[s.len() - 1] == skill_id); }
        }
        assert(s.drop_last().push(s.last()) =~= s);
    }
    reveal(Seq::filter);
}

/// A skill list with every copy of a skill taken out.
pub open spec fn without_skill(skills: Seq<u16>, skill_id: u16) -> Seq<u16> {
    skills.filter(|s: u16| s != skill_id)
}

proof fn lemma_filter_distinct(s: Seq<u16>, skill_id: u16)
    requires
        s.no_duplicates(),
    ensures
        without_skill(s, skill_id).no_duplicates(),
        forall|x: u16| #[trigger] without_skill(s, skill_id).contains(x) ==> s.contains(x) && x != skill_id,
    decreases s.len(),
{
    reveal(Seq::filter);
    if s.len() > 0 {
        let d = s.drop_last();
        assert(d.no_duplicates()) by {
            assert forall|i: int, j: int| 0 <= i < d.len() && 0 <= j < d.len() && i != j implies d[i] != d[j] by {
                assert(d[i] == s[i] && d[j] == s[j]);
            }
        }
        lemma_filter_distinct(d, skill_id);
        let fd = without_skill(d, skill_id);
        assert(!fd.contains(s.last())) by {
            if fd.contains(s.last()) {
                assert(d.contains(s.last()));
                let j = choose|j: int| 0 <= j < d.len() && d[j] == s.last();
                assert(s[j] == s[s.len() - 1]);
            }
        }
        assert forall|x: u16| #[trigger] without_skill(s, skill_id).contains(x) implies s.contains(x) && x != skill_id by {
            if fd.contains(x) {
                let j = choose|j: int| 0 <= j < d.len() && d[j] == x;
                assert(s[j] == x);
            } else {
                assert(without_skill(s, skill_id) == fd.push(s.last()));
                let k = choose|k: int| 0 <= k < fd.push(s.last()).len() && fd.push(s.last())[k] == x;
                assert(x == s[s.len() - 1]);
            }
        }
        if s.last() != skill_id {
            let f = fd.push(s.last());
            assert forall|i: int, j: int| 0 <= i < f.len() && 0 <= j < f.len() && i != j implies f[i] != f[j] by {
                if i < fd.len() && j < fd.len() {
                } else if i < fd.len() {
                    assert(fd.contains(f[i]));
                } else {
                    assert(fd.contains(f[j]));
                }
            }
        }
    }
}

/// A clan's skill list stays free of repeats: adding a skill the clan lacks
/// and removing a skill both keep it so, and a removed skill is gone.
pub proof fn law_skill_lists_stay_distinct(skills: Seq<u16>, skill_id: u16)
    requires
        skills.no_duplicates(),
    ensures
        !skills.contains(skill_id) ==> skills.push(skill_id).no_duplicates(),
        without_skill(skills, skill_id).no_duplicates(),
        !without_skill(skills, skill_id).contains(skill_id),
{
    lemma_filter_distinct(skills, skill_id);
    if !skills.contains(skill_id) {
        let p = skills.push(skill_id);
        assert forall|i: int, j: int| 0 <= i < p.len() && 0 <= j < p.len() && i != j implies p[i] != p[j] by {
            if i < skills.len() && j < skills.len() {
            } else if i < skills.len() {
                assert(skills.contains(p[i]));
            } else {
                assert(skills.contains(p[j]));
            }
        }
    }
}

fn has_skill(skills: &Vec<u16>, skill_id: u16) -> (found: bool)
    ensures
        found == skills@.contains(skill_id),
{
    let mut i: usize = 0;
    while i < skills.len()
        invariant
            i <= skills.len(),
            forall|j: int| 0 <= j < i ==> skills@[j] != skill_id,
        decreases skills.len() - i,
    {
        if skills[i] == skill_id {
            assert(skills@[i as int] == skill_id);
            return true;
        }
        i += 1;
    }
    false
}

/// A line of the member list a client is sent.
#[derive(Clone, Debug)]
pub struct ClanMemberInfo {
    pub name: String,
    pub position: ClanMemberPosition,
    pub contribution: u64,
    pub online: bool,
    pub level: u32,
    pub job: u16,
}

/// What the world knows of a connected character: its entity, name, level
/// and job.
#[derive(Clone, Debug)]
pub struct OnlineCharacter {
    pub entity: u64,
    pub name: String,
    pub level: u32,
    pub job: u16,
}

/// The index of the character with this entity, if connected.
pub open spec fn character_at(characters: Seq<OnlineCharacter>, entity: u64, k: int) -> bool {
    &&& 0 <= k < characters.len()
    &&& characters[k].entity == entity
    &&& forall|j: int| 0 <= j < k ==> characters[j].entity != entity
}

fn find_online_character(characters: &Vec<OnlineCharacter>, entity: u64) -> (result: Option<usize>)
    ensures
        match result {
            Some(k) => character_at(characters@, entity, k as int),
            None => forall|j: int| 0 <= j < characters@.len() ==> characters@[j].entity != entity,
        },
{
    let mut k: usize = 0;
    while k < characters.len()
        invariant
            k <= characters.len(),
            forall|j: int| 0 <= j < k ==> characters@[j].entity != entity,
        decreases characters.len() - k,
    {
        if characters[k].entity == entity {
            return Some(k);
        }
        k += 1;
    }
    None
}

/// A line of the member list as the rules read it.
pub struct ClanMemberInfoModel {
    pub name: Seq<char>,
    pub position: ClanMemberPosition,
    pub contribution: u64,
    pub online: bool,
    pub level: u32,
    pub job: u16,
}

pub open spec fn info_view(info: ClanMemberInfo) -> ClanMemberInfoModel {
    ClanMemberInfoModel {
        name: info.name@,
        position: info.position,
        contribution: info.contribution,
        online: info.online,
        level: info.level,
        job: info.job,
    }
}

/// The line listing one member: an online member with the name, level and
/// job of its character (none when the character is not found), an offline
/// member as the clan remembers it.
pub open spec fn member_line(m: ClanMemberModel, characters: Seq<OnlineCharacter>) -> Option<ClanMemberInfoModel> {
    match m {
        ClanMemberModel::Online { entity, position, contribution } =>
            if exists|k: int| character_at(characters, entity, k) {
                let c = characters[choose|k: int| character_at(characters, entity, k)];
                Some(ClanMemberInfoModel { name: c.name@, position, contribution, online: true, level: c.level, job: c.job })
            } else {
                None
            },
        ClanMemberModel::Offline { name, position, contribution, level, job } =>
            Some(ClanMemberInfoModel { name, position, contribution, online: false, level, job }),
    }
}

/// The lines of the members, in clan order.
pub open spec fn member_lines(members: Seq<ClanMemberModel>, characters: Seq<OnlineCharacter>) -> Seq<ClanMemberInfoModel>
    decreases members.len(),
{
    if members.len() == 0 {
        Seq::empty()
    } else {
        let earlier = member_lines(members.drop_last(), characters);
        match member_line(members.last(), characters) {
            Some(line) => earlier.push(line),
            None => earlier,
        }
    }
}

proof fn lemma_character_at_unique(characters: Seq<OnlineCharacter>, entity: u64, a: int, b: int)
    requires
        character_at(characters, entity, a),
        character_at(characters, entity, b),
    ensures
        a == b,
{
    if a < b {
        assert(characters[a].entity != entity);
    }
    if b < a {
        assert(characters[b].entity != entity);
    }
}

/// The member list of a clan: an online member whose character is known
/// is listed with that character's name, level and job; one whose
/// character is not found is left out; an offline member is listed as the
/// clan remembers it.
pub fn clan_member_list(members: &Vec<ClanMember>, characters: &Vec<OnlineCharacter>) -> (list: Vec<ClanMemberInfo>)
    ensures
        list@.map_values(|info: ClanMemberInfo| info_view(info)) == member_lines(members_view(members@), characters@),
{
    let ghost m = members_view(members@);
    let mut list: Vec<ClanMemberInfo> = Vec::new();
    let mut i: usize = 0;
    while i < members.len()
        invariant
            i <= members.len(),
            m == members_view(members@),
            list@.map_values(|info: ClanMemberInfo| info_view(info)) == member_lines(m.take(i as int), characters@),
        decreases members.len() - i,
    {
        proof {
            assert(m.take(i as int + 1).drop_last() =~= m.take(i as int));
            assert(m.take(i as int + 1).last() == members@[i as int]@);
        }
        let ghost before = list@;
        match &members[i] {
            ClanMember::Online { entity, position, contribution } => {
                match find_online_character(characters, *entity) {
                    Some(c) => {
                        let ch = &characters[c];
                        list.push(ClanMemberInfo {
                            name: ch.name.clone(),
                            position: *position,
                            contribution: *contribution,
                            online: true,
                            level: ch.level,
                            job: ch.job,
                        });
                        proof {
                            let k = choose|k: int| character_at(characters@, *entity, k);
                            lemma_character_at_unique(characters@, *entity, k, c as int);
                            assert(list@.map_values(|info: ClanMemberInfo| info_view(info))
                                =~= before.map_values(|info: ClanMemberInfo| info_view(info)).push(info_view(list@[list@.len() - 1])));
                        }
                    },
                    None => {},
                }
            },
            ClanMember::Offline { name, position, contribution, level, job } => {
                list.push(ClanMemberInfo {
                    name: name.clone(),
                    position: *position,
                    contribution: *contribution,
                    online: false,
                    level: *level,
                    job: *job,
                });
                proof {
                    assert(list@.map_values(|info: ClanMemberInfo| info_view(info))
                        =~= before.map_values(|info: ClanMemberInfo| info_view(info)).push(info_view(list@[list@.len() - 1])));
                }
            },
        }
        i += 1;
    }
    assert(m.take(members.len() as int) =~= m);
    list
}

/// The online members, in clan order, other than `entity`.
pub open spec fn others_online(members: Seq<ClanMemberModel>, entity: u64) -> Seq<u64>
    decreases members.len(),
{
    if members.len() == 0 {
        Seq::empty()
    } else {
        let earlier = others_online(members.drop_last(), entity);
        match members.last() {
            ClanMemberModel::Online { entity: e, .. } => if e != entity { earlier.push(e) } else { earlier },
            ClanMemberModel::Offline { .. } => earlier,
        }
    }
}

/// The online members to tell that `entity` connected: all but itself.
pub fn clan_members_to_notify(members: &Vec<ClanMember>, entity: u64) -> (notify: Vec<u64>)
    ensures
        notify@ == others_online(members_view(members@), entity),
{
    let ghost m = members_view(members@);
    let mut notify: Vec<u64> = Vec::new();
    let mut i: usize = 0;
    while i < members.len()
        invariant
            i <= members.len(),
            m == members_view(members@),
            notify@ == others_online(m.take(i as int), entity),
        decreases members.len() - i,
    {
        proof {
            assert(m.take(i as int + 1).drop_last() =~= m.take(i as int));
            assert(m.take(i as int + 1).last() == members@[i as int]@);
        }
        match &members[i] {
            ClanMember::Online { entity: e, .. } => {
                if *e != entity {
                    notify.push(*e);
                }
            },
            ClanMember::Offline { .. } => {},
        }
        i += 1;
    }
    assert(m.take(members.len() as int) =~= m);
    notify
}

} // verus!

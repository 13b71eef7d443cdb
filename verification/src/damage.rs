use vstd::prelude::*;

verus! {

/// What a hit did: nothing to a defender already dead, or it lowered its
/// health, perhaps killing it.
#[derive(Clone, Copy, Debug, PartialEq, Eq, Structural)]
pub enum DamageOutcome {
    AlreadyDead,
    Applied { killed: bool },
}

/// Health after a hit of `amount` (read as an `i32`): never below zero.
pub open spec fn health_after(hp: i32, amount: u32) -> int {
    let left = hp - (amount as i32);
    if left > 0 { left } else { 0 }
}

/// A hit on a defender: a dead defender (no health) takes no more damage;
/// otherwise its health drops by the amount, not below zero.
pub fn apply_damage_to_health(hp: &mut i32, amount: u32) -> (outcome: DamageOutcome)
    requires
        *old(hp) != 0 ==> i32::MIN <= *old(hp) - (amount as i32) <= i32::MAX,
    ensures
        *old(hp) == 0 ==> outcome == DamageOutcome::AlreadyDead && *final(hp) == 0,
        *old(hp) != 0 ==> *final(hp) == health_after(*old(hp), amount)
            && outcome == (DamageOutcome::Applied { killed: *final(hp) == 0 }),
{
    if *hp == 0 {
        return DamageOutcome::AlreadyDead;
    }
    let left = *hp - amount as i32;
    *hp = if left > 0 { left } else { 0 };
    DamageOutcome::Applied { killed: *hp == 0 }
}

/// A hit on a defender whose health is unsigned: it drops by the amount,
/// not below zero; a dead defender takes no more damage.
pub fn apply_pending_damage_to_health(hp: &mut u32, amount: u32) -> (outcome: DamageOutcome)
    ensures
        *old(hp) == 0 ==> outcome == DamageOutcome::AlreadyDead && *final(hp) == 0,
        *old(hp) != 0 ==> *final(hp) == (if *old(hp) > amount { *old(hp) - amount } else { 0 })
            && outcome == (DamageOutcome::Applied { killed: *final(hp) == 0 }),
{
    if *hp == 0 {
        return DamageOutcome::AlreadyDead;
    }
    *hp = hp.saturating_sub(amount);
    DamageOutcome::Applied { killed: *hp == 0 }
}

/// Who hurt an entity, how much, and when first and last.
#[derive(Clone, Copy, Debug, PartialEq, Eq, Structural)]
pub struct DamageSource {
    pub entity: u64,
    pub total_damage: usize,
    pub first_damage_time: u64,
    pub last_damage_time: u64,
}

/// The attackers an entity remembers, at most `max_damage_sources` of them.
#[derive(Clone, Debug)]
pub struct DamageSources {
    pub damage_sources: Vec<DamageSource>,
    pub max_damage_sources: usize,
}

/// `k` is the first source of the attacker.
pub open spec fn source_of(s: Seq<DamageSource>, attacker: u64, k: int) -> bool {
    &&& 0 <= k < s.len()
    &&& s[k].entity == attacker
    &&& forall|j: int| 0 <= j < k ==> s[j].entity != attacker
}

pub open spec fn has_source(s: Seq<DamageSource>, attacker: u64) -> bool {
    exists|k: int| 0 <= k < s.len() && s[k].entity == attacker
}

/// `k` is the oldest source: the first with the earliest last hit, that
/// hit being before `now`.
pub open spec fn oldest_source(s: Seq<DamageSource>, now: u64, k: int) -> bool {
    &&& 0 <= k < s.len()
    &&& s[k].last_damage_time < now
    &&& forall|j: int| 0 <= j < s.len() ==> s[j].last_damage_time >= s[k].last_damage_time
    &&& forall|j: int| 0 <= j < k ==> s[j].last_damage_time > s[k].last_damage_time
}

/// The source that makes room for a new one: the oldest, or the last one
/// when none was hit before `now`.
pub open spec fn evicted_source(s: Seq<DamageSource>, now: u64) -> int {
    if exists|k: int| oldest_source(s, now, k) {
        choose|k: int| oldest_source(s, now, k)
    } else {
        s.len() - 1
    }
}

fn find_oldest(sources: &Vec<DamageSource>, now: u64) -> (result: Option<usize>)
    ensures
        match result {
            Some(k) => oldest_source(sources@, now, k as int),
            None => forall|j: int| 0 <= j < sources@.len() ==> sources@[j].last_damage_time >= now,
        },
{
    let mut oldest_time = now;
    let mut oldest: Option<usize> = None;
    let mut i: usize = 0;
    while i < sources.len()
        invariant
            i <= sources.len(),
            oldest_time <= now,
            forall|j: int| 0 <= j < i ==> sources@[j].last_damage_time >= oldest_time,
            match oldest {
                Some(k) => k < i && sources@[k as int].last_damage_time == oldest_time && oldest_time < now
                    && forall|j: int| 0 <= j < k ==> sources@[j].last_damage_time > oldest_time,
                None => oldest_time == now,
            },
        decreases sources.len() - i,
    {
        if sources[i].last_damage_time < oldest_time {
            oldest_time = sources[i].last_damage_time;
            oldest = Some(i);
        }
        i += 1;
    }
    oldest
}

fn find_source(sources: &Vec<DamageSource>, attacker: u64) -> (result: Option<usize>)
    ensures
        match result {
            Some(k) => source_of(sources@, attacker, k as int),
            None => !has_source(sources@, attacker),
        },
{
    let mut i: usize = 0;
    while i < sources.len()
        invariant
            i <= sources.len(),
            forall|j: int| 0 <= j < i ==> sources@[j].entity != attacker,
        decreases sources.len() - i,
    {
        if sources[i].entity == attacker {
            return Some(i);
        }
        i += 1;
    }
    None
}

proof fn lemma_oldest_unique(s: Seq<DamageSource>, now: u64, a: int, b: int)
    requires
        oldest_source(s, now, a),
        oldest_source(s, now, b),
    ensures
        a == b,
{
}

impl DamageSources {
    /// Records a hit of `amount` by `attacker` at `now`. A known attacker
    /// adds to its total and its last hit moves to `now`; a new one is
    /// added at the end, after the oldest source makes room when the list
    /// is full.
    pub fn record_damage(&mut self, attacker: u64, amount: u32, now: u64)
        requires
            forall|k: int| source_of(old(self).damage_sources@, attacker, k)
                ==> old(self).damage_sources@[k].total_damage + amount <= usize::MAX,
            old(self).damage_sources@.len() == old(self).max_damage_sources ==> old(self).max_damage_sources > 0,
        ensures
            final(self).max_damage_sources == old(self).max_damage_sources,
            ({
                let s = old(self).damage_sources@;
                if has_source(s, attacker) {
                    exists|k: int| source_of(s, attacker, k) && final(self).damage_sources@ == s.update(k,
                        DamageSource { last_damage_time: now, total_damage: (s[k].total_damage + amount) as usize, ..s[k] })
                } else {
                    let room = if s.len() == old(self).max_damage_sources { s.remove(evicted_source(s, now)) } else { s };
                    final(self).damage_sources@ == room.push(DamageSource {
                        entity: attacker,
                        total_damage: amount as usize,
                        first_damage_time: now,
                        last_damage_time: now,
                    })
                }
            }),
    {
        let ghost s = self.damage_sources@;
        match find_source(&self.damage_sources, attacker) {
            Some(i) => {
                let mut source = self.damage_sources[i];
                source.last_damage_time = now;
                source.total_damage = source.total_damage + amount as usize;
                self.damage_sources.set(i, source);
                return;
            },
            None => {},
        }
        if self.damage_sources.len() == self.max_damage_sources {
            let index = match find_oldest(&self.damage_sources, now) {
                Some(k) => {
                    proof { lemma_oldest_unique(s, now, k as int, choose|k: int| oldest_source(s, now, k)); }
                    k
                },
                None => self.damage_sources.len() - 1,
            };
            self.damage_sources.remove(index);
        }
        self.damage_sources.push(DamageSource {
            entity: attacker,
            total_damage: amount as usize,
            first_damage_time: now,
            last_damage_time: now,
        });
    }
}

/// A remembered list never grows past its limit.
pub proof fn law_damage_sources_bounded(s: Seq<DamageSource>, max: usize, attacker: u64, amount: u32, now: u64)
    requires
        s.len() <= max,
        s.len() == max ==> max > 0,
    ensures
        ({
            let room = if s.len() == max { s.remove(evicted_source(s, now)) } else { s };
            has_source(s, attacker) || room.push(DamageSource {
                entity: attacker, total_damage: amount as usize, first_damage_time: now, last_damage_time: now,
            }).len() <= max
        }),
{
    if !has_source(s, attacker) && s.len() == max {
        if exists|k: int| oldest_source(s, now, k) {
            let k = choose|k: int| oldest_source(s, now, k);
        }
    }
}

/// The first source with the earliest last hit among the first `n`.
pub open spec fn first_earliest(s: Seq<DamageSource>, n: int) -> int
    decreases n,
{
    if n <= 1 {
        0
    } else {
        let m = first_earliest(s, n - 1);
        if s[n - 1].last_damage_time < s[m].last_damage_time { n - 1 } else { m }
    }
}

proof fn lemma_first_earliest(s: Seq<DamageSource>, n: int)
    requires
        1 <= n <= s.len(),
    ensures
        0 <= first_earliest(s, n) < n,
        forall|j: int| 0 <= j < n ==> (#[trigger] s[j]).last_damage_time >= s[first_earliest(s, n)].last_damage_time,
        forall|j: int| 0 <= j < first_earliest(s, n) ==> (#[trigger] s[j]).last_damage_time > s[first_earliest(s, n)].last_damage_time,
    decreases n,
{
    if n > 1 {
        lemma_first_earliest(s, n - 1);
    }
}

/// When a full list makes room, the source that goes is one whose last hit
/// is the earliest of all (no hit lies in the future).
pub proof fn law_evicted_source_is_oldest(s: Seq<DamageSource>, now: u64)
    requires
        s.len() > 0,
        forall|j: int| 0 <= j < s.len() ==> (#[trigger] s[j]).last_damage_time <= now,
    ensures
        0 <= evicted_source(s, now) < s.len(),
        forall|j: int| 0 <= j < s.len() ==> s[evicted_source(s, now)].last_damage_time <= (#[trigger] s[j]).last_damage_time,
{
    lemma_first_earliest(s, s.len() as int);
    let m = first_earliest(s, s.len() as int);
    if exists|k: int| oldest_source(s, now, k) {
        let k = choose|k: int| oldest_source(s, now, k);
    } else {
        if s[m].last_damage_time < now {
            assert(oldest_source(s, now, m));
        }
        assert forall|j: int| 0 <= j < s.len() implies s[s.len() - 1].last_damage_time <= (#[trigger] s[j]).last_damage_time by {
            assert(s[m].last_damage_time <= s[j].last_damage_time);
        }
    }
}

/// What the world shows of an NPC's damage source when the NPC dies: the
/// source's level, and its owner with the owner's level when it has an owner
/// that is found.
#[derive(Clone, Copy, Debug, PartialEq, Eq)]
pub struct SourceLookup {
    pub level: u32,
    pub owner: Option<(u64, u32)>,
}

/// Who earns experience for a kill, at which level, for how much damage.
#[derive(Clone, Copy, Debug, PartialEq, Eq, Structural)]
pub struct XpRecipient {
    pub entity: u64,
    pub level: u32,
    pub total_damage: usize,
}

/// The recipient a damage source gives when its victim dies at `now`: none
/// when its last hit is older than `expire` or the source is gone; its owner
/// when it has one that is found; else the source itself.
pub open spec fn death_recipient(source: DamageSource, lookup: Option<SourceLookup>, now: u64, expire: u64)
    -> Option<XpRecipient>
{
    if now - source.last_damage_time > expire {
        None
    } else {
        match lookup {
            None => None,
            Some(l) => match l.owner {
                Some((owner, owner_level)) =>
                    Some(XpRecipient { entity: owner, level: owner_level, total_damage: source.total_damage }),
                None => Some(XpRecipient { entity: source.entity, level: l.level, total_damage: source.total_damage }),
            },
        }
    }
}

/// The recipients of the first `n` sources, in order.
pub open spec fn death_recipients(sources: Seq<DamageSource>, lookups: Seq<Option<SourceLookup>>, now: u64,
    expire: u64, n: nat) -> Seq<XpRecipient>
    decreases n,
{
    if n == 0 {
        Seq::empty()
    } else {
        let before = death_recipients(sources, lookups, now, expire, (n - 1) as nat);
        match death_recipient(sources[n - 1], lookups[n - 1], now, expire) {
            Some(r) => before.push(r),
            None => before,
        }
    }
}

/// Who earns experience when an NPC dies: each damage source in order, its
/// last hit within `expire` of `now`, that is still found (`lookups` is
/// what the world shows of each source), or its owner in its place.
pub fn death_xp_recipients(sources: &Vec<DamageSource>, lookups: &Vec<Option<SourceLookup>>, now: u64, expire: u64)
    -> (recipients: Vec<XpRecipient>)
    requires
        lookups@.len() == sources@.len(),
        forall|i: int| 0 <= i < sources@.len() ==> (#[trigger] sources@[i]).last_damage_time <= now,
    ensures
        recipients@ == death_recipients(sources@, lookups@, now, expire, sources@.len()),
{
    let mut recipients: Vec<XpRecipient> = Vec::new();
    let mut i: usize = 0;
    while i < sources.len()
        invariant
            i <= sources.len(),
            lookups@.len() == sources@.len(),
            forall|k: int| 0 <= k < sources@.len() ==> (#[trigger] sources@[k]).last_damage_time <= now,
            recipients@ == death_recipients(sources@, lookups@, now, expire, i as nat),
        decreases sources.len() - i,
    {
        let source = sources[i];
        assert(sources@[i as int].last_damage_time <= now);
        if now - source.last_damage_time <= expire {
            match lookups[i] {
                None => {},
                Some(l) => match l.owner {
                    Some((owner, owner_level)) =>
                        recipients.push(XpRecipient { entity: owner, level: owner_level, total_damage: source.total_damage }),
                    None => recipients.push(XpRecipient { entity: source.entity, level: l.level, total_damage: source.total_damage }),
                },
            }
        }
        i += 1;
    }
    recipients
}

/// The level difference an NPC's drop is judged by: the killer's level (its
/// owner's, when it has one that is found) less the NPC's.
pub fn killer_level_difference(killer_level: u32, owner_level: Option<u32>, npc_level: u32) -> (difference: i64)
    ensures
        difference == match owner_level { Some(l) => l as int, None => killer_level as int } - npc_level as int,
{
    let level = match owner_level {
        Some(l) => l,
        None => killer_level,
    };
    level as i64 - npc_level as i64
}

/// What a dying NPC does in one tick: its death is handled once (the spawn
/// point is told, the on-dead AI runs, experience and the drop are handed
/// out), and the entity leaves once its death animation has run its full
/// duration (never when it has none).
#[derive(Clone, Copy, Debug, PartialEq, Eq, Structural)]
pub struct DeathStep {
    pub handle_death: bool,
    pub remove_entity: bool,
}

pub fn npc_death_step(has_run_dead_ai: &mut bool, elapsed: u64, required: Option<u64>) -> (step: DeathStep)
    ensures
        step.handle_death == !*old(has_run_dead_ai),
        *final(has_run_dead_ai),
        step.remove_entity == match required { Some(d) => elapsed >= d, None => false },
{
    let handle_death = !*has_run_dead_ai;
    *has_run_dead_ai = true;
    let remove_entity = match required {
        Some(d) => elapsed >= d,
        None => false,
    };
    DeathStep { handle_death, remove_entity }
}

/// The killer's part of a kill, when the killer is found: the drop is owned
/// by the killer, and judged by the level difference of the killer (its
/// owner, when it has one that is found) and the NPC.
pub fn killer_drop(killer: Option<(u64, u32, Option<u32>)>, npc_level: u32) -> (drop: Option<(u64, i64)>)
    ensures
        drop == match killer {
            Some((entity, level, owner_level)) => Some((entity,
                (match owner_level { Some(l) => l as int, None => level as int } - npc_level as int) as i64)),
            None => None::<(u64, i64)>,
        },
{
    match killer {
        Some((entity, level, owner_level)) => Some((entity, killer_level_difference(level, owner_level, npc_level))),
        None => None,
    }
}

} // verus!

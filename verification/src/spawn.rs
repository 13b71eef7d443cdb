use vstd::prelude::*;

verus! {

/// The most tactics a spawn point builds up.
pub const MAX_TACTICS_VALUE: usize = 500;

/// A monster spawn point: its timer, how many of its monsters live, and
/// the tactics that decide which groups it sends next.
#[derive(Clone, Debug)]
pub struct MonsterSpawnPoint {
    pub time_since_last_check: u64,
    pub interval: u64,
    pub num_alive_monsters: usize,
    pub limit_count: usize,
    pub current_tactics_value: usize,
    pub tactic_points: usize,
    pub basic_spawns: Vec<(u16, usize)>,
    pub tactic_spawns: Vec<(u16, usize)>,
}

/// How a planned group's size is adjusted.
#[derive(Clone, Copy, Debug, PartialEq, Eq, Structural)]
pub enum CountAdjust {
    Keep,
    Less(usize),
    OneMore,
}

/// A group to spawn: from the basic list or the tactic list, at an index.
#[derive(Clone, Copy, Debug, PartialEq, Eq, Structural)]
pub struct SpawnPick {
    pub tactic: bool,
    pub index: usize,
    pub adjust: CountAdjust,
}

/// How the tactics value moves: up by an amount, or to a value.
#[derive(Clone, Copy, Debug, PartialEq, Eq, Structural)]
pub enum TacticsChange {
    Add(usize),
    SetTo(usize),
}

pub open spec fn basic(index: usize, adjust: CountAdjust) -> SpawnPick {
    SpawnPick { tactic: false, index, adjust }
}

pub open spec fn tactic(index: usize, adjust: CountAdjust) -> SpawnPick {
    SpawnPick { tactic: true, index, adjust }
}

/// The plan for a regeneration value: the change of tactics and the groups
/// to send.
pub open spec fn spawn_plan(regen: usize) -> (TacticsChange, Seq<SpawnPick>) {
    if regen <= 10 {
        (TacticsChange::Add(12), seq![basic(0, CountAdjust::Keep)])
    } else if regen <= 15 {
        (TacticsChange::Add(15), seq![basic(0, CountAdjust::Less(2)), basic(1, CountAdjust::Keep)])
    } else if regen <= 25 {
        (TacticsChange::Add(12), seq![basic(2, CountAdjust::Keep)])
    } else if regen <= 30 {
        (TacticsChange::Add(15), seq![basic(0, CountAdjust::Less(1)), basic(2, CountAdjust::Keep)])
    } else if regen <= 40 {
        (TacticsChange::Add(12), seq![basic(3, CountAdjust::Keep)])
    } else if regen <= 50 {
        (TacticsChange::Add(12), seq![basic(1, CountAdjust::Keep), basic(2, CountAdjust::Less(2))])
    } else if regen <= 65 {
        (TacticsChange::Add(20), seq![basic(2, CountAdjust::Keep), basic(3, CountAdjust::Less(2))])
    } else if regen <= 73 {
        (TacticsChange::Add(15), seq![basic(3, CountAdjust::Keep), basic(4, CountAdjust::Keep)])
    } else if regen <= 85 {
        (TacticsChange::Add(15), seq![basic(0, CountAdjust::Keep), basic(4, CountAdjust::Less(2)), tactic(0, CountAdjust::Less(1))])
    } else if regen <= 92 {
        (TacticsChange::SetTo(1), seq![basic(1, CountAdjust::Keep), tactic(0, CountAdjust::Keep), tactic(1, CountAdjust::Keep)])
    } else {
        (TacticsChange::SetTo(7), seq![basic(4, CountAdjust::Keep), tactic(0, CountAdjust::OneMore), tactic(1, CountAdjust::Keep)])
    }
}

pub open spec fn adjusted(count: usize, adjust: CountAdjust) -> int {
    match adjust {
        CountAdjust::Keep => count as int,
        CountAdjust::Less(n) => if count >= n { count - n } else { 0 },
        CountAdjust::OneMore => count + 1,
    }
}

/// The groups a plan sends: each pick whose list has an entry at its index,
/// with its count adjusted.
pub open spec fn spawn_queue(picks: Seq<SpawnPick>, basic_spawns: Seq<(u16, usize)>, tactic_spawns: Seq<(u16, usize)>) -> Seq<(u16, usize)>
    decreases picks.len(),
{
    if picks.len() == 0 {
        Seq::empty()
    } else {
        let rest = spawn_queue(picks.drop_last(), basic_spawns, tactic_spawns);
        let p = picks.last();
        let list = if p.tactic { tactic_spawns } else { basic_spawns };
        if p.index < list.len() {
            rest.push((list[p.index as int].0, adjusted(list[p.index as int].1, p.adjust) as usize))
        } else {
            rest
        }
    }
}

/// The regeneration value of a spawn point below its limit.
pub open spec fn regen_value(limit: usize, live: usize, tactics: usize, points: usize) -> int {
    ((limit * 2 - live) * tactics * 50) / (limit * points)
}

pub open spec fn applied_tactics(tactics: usize, change: TacticsChange) -> int {
    let t = match change {
        TacticsChange::Add(n) => tactics + n,
        TacticsChange::SetTo(n) => n as int,
    };
    if t > MAX_TACTICS_VALUE { MAX_TACTICS_VALUE as int } else { t }
}

fn plan_for(regen: usize) -> (plan: (TacticsChange, Vec<SpawnPick>))
    ensures
        plan.0 == spawn_plan(regen).0,
        plan.1@ == spawn_plan(regen).1,
{
    let mut picks: Vec<SpawnPick> = Vec::new();
    let change = if regen <= 10 {
        picks.push(SpawnPick { tactic: false, index: 0, adjust: CountAdjust::Keep });
        TacticsChange::Add(12)
    } else if regen <= 15 {
        picks.push(SpawnPick { tactic: false, index: 0, adjust: CountAdjust::Less(2) });
        picks.push(SpawnPick { tactic: false, index: 1, adjust: CountAdjust::Keep });
        TacticsChange::Add(15)
    } else if regen <= 25 {
        picks.push(SpawnPick { tactic: false, index: 2, adjust: CountAdjust::Keep });
        TacticsChange::Add(12)
    } else if regen <= 30 {
        picks.push(SpawnPick { tactic: false, index: 0, adjust: CountAdjust::Less(1) });
        picks.push(SpawnPick { tactic: false, index: 2, adjust: CountAdjust::Keep });
        TacticsChange::Add(15)
    } else if regen <= 40 {
        picks.push(SpawnPick { tactic: false, index: 3, adjust: CountAdjust::Keep });
        TacticsChange::Add(12)
    } else if regen <= 50 {
        picks.push(SpawnPick { tactic: false, index: 1, adjust: CountAdjust::Keep });
        picks.push(SpawnPick { tactic: false, index: 2, adjust: CountAdjust::Less(2) });
        TacticsChange::Add(12)
    } else if regen <= 65 {
        picks.push(SpawnPick { tactic: false, index: 2, adjust: CountAdjust::Keep });
        picks.push(SpawnPick { tactic: false, index: 3, adjust: CountAdjust::Less(2) });
        TacticsChange::Add(20)
    } else if regen <= 73 {
        picks.push(SpawnPick { tactic: false, index: 3, adjust: CountAdjust::Keep });
        picks.push(SpawnPick { tactic: false, index: 4, adjust: CountAdjust::Keep });
        TacticsChange::Add(15)
    } else if regen <= 85 {
        picks.push(SpawnPick { tactic: false, index: 0, adjust: CountAdjust::Keep });
        picks.push(SpawnPick { tactic: false, index: 4, adjust: CountAdjust::Less(2) });
        picks.push(SpawnPick { tactic: true, index: 0, adjust: CountAdjust::Less(1) });
        TacticsChange::Add(15)
    } else if regen <= 92 {
        picks.push(SpawnPick { tactic: false, index: 1, adjust: CountAdjust::Keep });
        picks.push(SpawnPick { tactic: true, index: 0, adjust: CountAdjust::Keep });
        picks.push(SpawnPick { tactic: true, index: 1, adjust: CountAdjust::Keep });
        TacticsChange::SetTo(1)
    } else {
        picks.push(SpawnPick { tactic: false, index: 4, adjust: CountAdjust::Keep });
        picks.push(SpawnPick { tactic: true, index: 0, adjust: CountAdjust::OneMore });
        picks.push(SpawnPick { tactic: true, index: 1, adjust: CountAdjust::Keep });
        TacticsChange::SetTo(7)
    };
    assert(picks@ =~= spawn_plan(regen).1);
    (change, picks)
}

/// The group at `index` of a spawn list with its count moved by `delta`
/// (not below zero), or nothing when the list has no such entry.
pub open spec fn listed(list: Seq<(u16, usize)>, index: int, delta: int) -> Seq<(u16, usize)> {
    if 0 <= index < list.len() {
        seq![(list[index].0, (if list[index].1 + delta < 0 { 0 } else { list[index].1 + delta }) as usize)]
    } else {
        Seq::empty()
    }
}

/// A tactics value held to the cap.
pub open spec fn capped_tactics(t: int) -> int {
    if t > MAX_TACTICS_VALUE { MAX_TACTICS_VALUE as int } else { t }
}

proof fn lemma_queue_of_three(a: SpawnPick, b: SpawnPick, c: SpawnPick, basic_spawns: Seq<(u16, usize)>, tactic_spawns: Seq<(u16, usize)>)
    ensures
        spawn_queue(seq![a], basic_spawns, tactic_spawns) == pick_group(a, basic_spawns, tactic_spawns),
        spawn_queue(seq![a, b], basic_spawns, tactic_spawns)
            == pick_group(a, basic_spawns, tactic_spawns) + pick_group(b, basic_spawns, tactic_spawns),
        spawn_queue(seq![a, b, c], basic_spawns, tactic_spawns)
            == pick_group(a, basic_spawns, tactic_spawns) + pick_group(b, basic_spawns, tactic_spawns) + pick_group(c, basic_spawns, tactic_spawns),
{
    assert(seq![a].drop_last() =~= Seq::<SpawnPick>::empty());
    assert(seq![a, b].drop_last() =~= seq![a]);
    assert(seq![a, b, c].drop_last() =~= seq![a, b]);
    let e = Seq::<SpawnPick>::empty();
    assert(spawn_queue(e, basic_spawns, tactic_spawns) == Seq::<(u16, usize)>::empty());
    let qa = spawn_queue(seq![a], basic_spawns, tactic_spawns);
    assert(qa =~= pick_group(a, basic_spawns, tactic_spawns));
    let qb = spawn_queue(seq![a, b], basic_spawns, tactic_spawns);
    assert(qb =~= qa + pick_group(b, basic_spawns, tactic_spawns));
    let qc = spawn_queue(seq![a, b, c], basic_spawns, tactic_spawns);
    assert(qc =~= qb + pick_group(c, basic_spawns, tactic_spawns));
}

/// What one pick adds to a queue.
spec fn pick_group(p: SpawnPick, basic_spawns: Seq<(u16, usize)>, tactic_spawns: Seq<(u16, usize)>) -> Seq<(u16, usize)> {
    let list = if p.tactic { tactic_spawns } else { basic_spawns };
    if p.index < list.len() {
        seq![(list[p.index as int].0, adjusted(list[p.index as int].1, p.adjust) as usize)]
    } else {
        Seq::empty()
    }
}

/// The spawn table: for each band of regeneration values, the groups a
/// spawn point sends (by their place in its basic and tactic lists, each
/// sent only where the list has it, with the count lowered or raised as
/// the table says) and how its tactics value moves.
pub proof fn law_spawn_table(regen: usize, tactics: usize, basic_spawns: Seq<(u16, usize)>, tactic_spawns: Seq<(u16, usize)>)
    ensures
        ({
            let q = spawn_queue(spawn_plan(regen).1, basic_spawns, tactic_spawns);
            let t = applied_tactics(tactics, spawn_plan(regen).0);
            &&& regen <= 10 ==> q == listed(basic_spawns, 0, 0) && t == capped_tactics(tactics + 12)
            &&& 11 <= regen <= 15 ==> q == listed(basic_spawns, 0, -2) + listed(basic_spawns, 1, 0)
                && t == capped_tactics(tactics + 15)
            &&& 16 <= regen <= 25 ==> q == listed(basic_spawns, 2, 0) && t == capped_tactics(tactics + 12)
            &&& 26 <= regen <= 30 ==> q == listed(basic_spawns, 0, -1) + listed(basic_spawns, 2, 0)
                && t == capped_tactics(tactics + 15)
            &&& 31 <= regen <= 40 ==> q == listed(basic_spawns, 3, 0) && t == capped_tactics(tactics + 12)
            &&& 41 <= regen <= 50 ==> q == listed(basic_spawns, 1, 0) + listed(basic_spawns, 2, -2)
                && t == capped_tactics(tactics + 12)
            &&& 51 <= regen <= 65 ==> q == listed(basic_spawns, 2, 0) + listed(basic_spawns, 3, -2)
                && t == capped_tactics(tactics + 20)
            &&& 66 <= regen <= 73 ==> q == listed(basic_spawns, 3, 0) + listed(basic_spawns, 4, 0)
                && t == capped_tactics(tactics + 15)
            &&& 74 <= regen <= 85 ==> q == listed(basic_spawns, 0, 0) + listed(basic_spawns, 4, -2) + listed(tactic_spawns, 0, -1)
                && t == capped_tactics(tactics + 15)
            &&& 86 <= regen <= 92 ==> q == listed(basic_spawns, 1, 0) + listed(tactic_spawns, 0, 0) + listed(tactic_spawns, 1, 0)
                && t == 1
            &&& 93 <= regen ==> q == listed(basic_spawns, 4, 0) + listed(tactic_spawns, 0, 1) + listed(tactic_spawns, 1, 0)
                && t == 7
        }),
{
    let picks = spawn_plan(regen).1;
    if picks.len() == 1 {
        lemma_queue_of_three(picks[0], picks[0], picks[0], basic_spawns, tactic_spawns);
        assert(picks =~= seq![picks[0]]);
    } else if picks.len() == 2 {
        lemma_queue_of_three(picks[0], picks[1], picks[1], basic_spawns, tactic_spawns);
        assert(picks =~= seq![picks[0], picks[1]]);
    } else {
        lemma_queue_of_three(picks[0], picks[1], picks[2], basic_spawns, tactic_spawns);
        assert(picks =~= seq![picks[0], picks[1], picks[2]]);
    }
    assert(pick_group(basic(0, CountAdjust::Keep), basic_spawns, tactic_spawns) =~= listed(basic_spawns, 0, 0));
    assert(pick_group(basic(0, CountAdjust::Less(2)), basic_spawns, tactic_spawns) =~= listed(basic_spawns, 0, -2));
    assert(pick_group(basic(0, CountAdjust::Less(1)), basic_spawns, tactic_spawns) =~= listed(basic_spawns, 0, -1));
    assert(pick_group(basic(1, CountAdjust::Keep), basic_spawns, tactic_spawns) =~= listed(basic_spawns, 1, 0));
    assert(pick_group(basic(2, CountAdjust::Keep), basic_spawns, tactic_spawns) =~= listed(basic_spawns, 2, 0));
    assert(pick_group(basic(2, CountAdjust::Less(2)), basic_spawns, tactic_spawns) =~= listed(basic_spawns, 2, -2));
    assert(pick_group(basic(3, CountAdjust::Keep), basic_spawns, tactic_spawns) =~= listed(basic_spawns, 3, 0));
    assert(pick_group(basic(3, CountAdjust::Less(2)), basic_spawns, tactic_spawns) =~= listed(basic_spawns, 3, -2));
    assert(pick_group(basic(4, CountAdjust::Keep), basic_spawns, tactic_spawns) =~= listed(basic_spawns, 4, 0));
    assert(pick_group(basic(4, CountAdjust::Less(2)), basic_spawns, tactic_spawns) =~= listed(basic_spawns, 4, -2));
    assert(pick_group(tactic(0, CountAdjust::Keep), basic_spawns, tactic_spawns) =~= listed(tactic_spawns, 0, 0));
    assert(pick_group(tactic(0, CountAdjust::Less(1)), basic_spawns, tactic_spawns) =~= listed(tactic_spawns, 0, -1));
    assert(pick_group(tactic(0, CountAdjust::OneMore), basic_spawns, tactic_spawns) =~= listed(tactic_spawns, 0, 1));
    assert(pick_group(tactic(1, CountAdjust::Keep), basic_spawns, tactic_spawns) =~= listed(tactic_spawns, 1, 0));
}

fn build_queue(picks: &Vec<SpawnPick>, basic_spawns: &Vec<(u16, usize)>, tactic_spawns: &Vec<(u16, usize)>) -> (queue: Vec<(u16, usize)>)
    requires
        tactic_spawns@.len() > 0 ==> tactic_spawns@[0].1 < usize::MAX,
        forall|i: int| 0 <= i < picks@.len() && picks@[i].adjust == CountAdjust::OneMore ==> picks@[i].tactic && picks@[i].index == 0,
    ensures
        queue@ == spawn_queue(picks@, basic_spawns@, tactic_spawns@),
{
    let mut queue: Vec<(u16, usize)> = Vec::new();
    let mut i: usize = 0;
    while i < picks.len()
        invariant
            i <= picks.len(),
            tactic_spawns@.len() > 0 ==> tactic_spawns@[0].1 < usize::MAX,
            forall|j: int| 0 <= j < picks@.len() && picks@[j].adjust == CountAdjust::OneMore ==> picks@[j].tactic && picks@[j].index == 0,
            queue@ == spawn_queue(picks@.take(i as int), basic_spawns@, tactic_spawns@),
        decreases picks.len() - i,
    {
        let p = picks[i];
        assert(picks@.take(i as int + 1).drop_last() =~= picks@.take(i as int));
        assert(picks@.take(i as int + 1).last() == p);
        let list = if p.tactic { tactic_spawns } else { basic_spawns };
        if p.index < list.len() {
            let (id, count) = list[p.index];
            let c = match p.adjust {
                CountAdjust::Keep => count,
                CountAdjust::Less(n) => count.saturating_sub(n),
                CountAdjust::OneMore => count + 1,
            };
            queue.push((id, c));
        }
        i += 1;
    }
    assert(picks@.take(i as int) =~= picks@);
    queue
}

impl MonsterSpawnPoint {
    /// Its tactics never exceed the cap.
    pub open spec fn wf(&self) -> bool {
        self.current_tactics_value <= MAX_TACTICS_VALUE
    }

    /// One tick of the spawn point, `delta` after the last. Until its
    /// interval has passed nothing happens. Then a point at its limit
    /// loses one tactics point; below it, the regeneration value picks a
    /// plan that moves the tactics (capped at the maximum) and names the
    /// groups to send, returned as (npc id, count) pairs.
    pub fn tick(&mut self, delta: u64) -> (queue: Vec<(u16, usize)>)
        requires
            old(self).wf(),
            old(self).time_since_last_check + delta <= u64::MAX,
            old(self).num_alive_monsters < old(self).limit_count ==> {
                &&& old(self).limit_count * 2 <= usize::MAX
                &&& old(self).limit_count * old(self).tactic_points > 0
                &&& old(self).limit_count * old(self).tactic_points <= usize::MAX
                &&& (old(self).limit_count * 2 - old(self).num_alive_monsters) * old(self).current_tactics_value * 50 <= usize::MAX
            },
            old(self).tactic_spawns@.len() > 0 ==> old(self).tactic_spawns@[0].1 < usize::MAX,
        ensures
            final(self).wf(),
            final(self).interval == old(self).interval,
            final(self).num_alive_monsters == old(self).num_alive_monsters,
            final(self).limit_count == old(self).limit_count,
            final(self).tactic_points == old(self).tactic_points,
            final(self).basic_spawns@ == old(self).basic_spawns@,
            final(self).tactic_spawns@ == old(self).tactic_spawns@,
            ({
                let elapsed = old(self).time_since_last_check + delta;
                if elapsed < old(self).interval {
                    &&& final(self).time_since_last_check == elapsed
                    &&& final(self).current_tactics_value == old(self).current_tactics_value
                    &&& queue@.len() == 0
                } else if old(self).num_alive_monsters >= old(self).limit_count {
                    &&& final(self).time_since_last_check == elapsed - old(self).interval
                    &&& final(self).current_tactics_value == (if old(self).current_tactics_value > 0 {
                        old(self).current_tactics_value - 1 } else { 0 })
                    &&& queue@.len() == 0
                } else {
                    let regen = regen_value(old(self).limit_count, old(self).num_alive_monsters,
                        old(self).current_tactics_value, old(self).tactic_points);
                    let plan = spawn_plan(regen as usize);
                    &&& final(self).time_since_last_check == elapsed - old(self).interval
                    &&& final(self).current_tactics_value == applied_tactics(old(self).current_tactics_value, plan.0)
                    &&& queue@ == spawn_queue(plan.1, old(self).basic_spawns@, old(self).tactic_spawns@)
                }
            }),
    {
        self.time_since_last_check = self.time_since_last_check + delta;
        if self.time_since_last_check < self.interval {
            return Vec::new();
        }
        self.time_since_last_check = self.time_since_last_check - self.interval;
        let live = self.num_alive_monsters;
        if live >= self.limit_count {
            self.current_tactics_value = self.current_tactics_value.saturating_sub(1);
            return Vec::new();
        }
        let spread = self.limit_count * 2 - live;
        assert(spread * self.current_tactics_value <= usize::MAX) by (nonlinear_arith)
            requires spread * self.current_tactics_value * 50 <= usize::MAX;
        let numerator = spread * self.current_tactics_value * 50;
        let regen = numerator / (self.limit_count * self.tactic_points);
        let (change, picks) = plan_for(regen);
        let queue = build_queue(&picks, &self.basic_spawns, &self.tactic_spawns);
        let t = match change {
            TacticsChange::Add(n) => self.current_tactics_value + n,
            TacticsChange::SetTo(n) => n,
        };
        self.current_tactics_value = if t > MAX_TACTICS_VALUE { MAX_TACTICS_VALUE } else { t };
        queue
    }

    /// One more of the point's monsters lives.
    pub fn record_spawned(&mut self)
        requires
            old(self).num_alive_monsters < usize::MAX,
        ensures
            final(self).num_alive_monsters == old(self).num_alive_monsters + 1,
            final(self).current_tactics_value == old(self).current_tactics_value,
    {
        self.num_alive_monsters = self.num_alive_monsters + 1;
    }

    /// One of the point's monsters died.
    pub fn record_death(&mut self)
        ensures
            final(self).num_alive_monsters == (if old(self).num_alive_monsters > 0 {
                old(self).num_alive_monsters - 1 } else { 0 }),
            final(self).current_tactics_value == old(self).current_tactics_value,
    {
        self.num_alive_monsters = self.num_alive_monsters.saturating_sub(1);
    }
}

/// Whatever happens in a tick, the tactics of a spawn point stay within
/// the cap.
pub proof fn law_tactics_capped(tactics: usize, regen: usize)
    requires
        tactics <= MAX_TACTICS_VALUE,
    ensures
        applied_tactics(tactics, spawn_plan(regen).0) <= MAX_TACTICS_VALUE,
        (if tactics > 0 { tactics - 1 } else { 0 }) <= MAX_TACTICS_VALUE,
{
}

} // verus!

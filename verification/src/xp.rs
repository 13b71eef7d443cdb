use vstd::prelude::*;
use vstd::string::StringExecFns;

verus! {

/// What each level asks and gives: `require_xp[l]` is the experience to
/// leave level `l`; `skill_points[l]` and `stat_points[l]` are the points
/// earned on reaching level `l`. Levels past the end of `require_xp` are
/// not reached.
#[derive(Clone, Debug)]
pub struct LevelTable {
    pub require_xp: Vec<u64>,
    pub skill_points: Vec<u32>,
    pub stat_points: Vec<u32>,
}

impl LevelTable {
    pub open spec fn wf(&self) -> bool {
        &&& self.skill_points@.len() > self.require_xp@.len()
        &&& self.stat_points@.len() > self.require_xp@.len()
        &&& self.require_xp@.len() < u32::MAX
    }
}

/// The experience, stamina, level and unspent points of a character.
#[derive(Clone, Copy, Debug, PartialEq, Eq, Structural)]
pub struct ExperienceState {
    pub level: u32,
    pub xp: u64,
    pub stamina: u32,
    pub skill_points: u32,
    pub stat_points: u32,
}

/// Levelling up from `level` with `xp`: while the experience covers the
/// level's requirement, it is spent and the level rises. The result is the
/// final level, the experience left, and the skill and stat points earned.
pub open spec fn level_up(require: Seq<u64>, skill: Seq<u32>, stat: Seq<u32>, level: int, xp: int) -> (int, int, int, int)
    decreases require.len() - level,
{
    if level < 0 || level >= require.len() || xp < require[level] {
        (level, xp, 0, 0)
    } else {
        let (l, x, a, b) = level_up(require, skill, stat, level + 1, xp - require[level]);
        (l, x, a + skill[level + 1], b + stat[level + 1])
    }
}

proof fn lemma_level_up_bounds(require: Seq<u64>, skill: Seq<u32>, stat: Seq<u32>, level: int, xp: int)
    requires
        0 <= level,
        0 <= xp,
    ensures
        level_up(require, skill, stat, level, xp).0 >= level,
        level_up(require, skill, stat, level, xp).0 <= (if level > require.len() { level } else { require.len() as int }),
        0 <= level_up(require, skill, stat, level, xp).1 <= xp,
        level_up(require, skill, stat, level, xp).2 >= 0,
        level_up(require, skill, stat, level, xp).3 >= 0,
    decreases require.len() - level,
{
    if !(level >= require.len() || xp < require[level]) {
        lemma_level_up_bounds(require, skill, stat, level + 1, xp - require[level]);
    }
}

/// The sum of `points[k]` over the levels `from <= k < to`.
pub open spec fn points_between(points: Seq<u32>, from: int, to: int) -> int
    decreases to - from,
{
    if from >= to { 0 } else { points[from] + points_between(points, from + 1, to) }
}

/// Levelling up from `level` to the level reached earns exactly the skill
/// and stat points of each level reached: the sum of `skill[k]` and of
/// `stat[k]` for `level < k <= reached`, nothing for the level left.
pub proof fn law_level_up_earns_the_points_of_the_levels_reached(require: Seq<u64>, skill: Seq<u32>, stat: Seq<u32>, level: int, xp: int)
    ensures
        level_up(require, skill, stat, level, xp).2 == points_between(skill, level + 1, level_up(require, skill, stat, level, xp).0 + 1),
        level_up(require, skill, stat, level, xp).3 == points_between(stat, level + 1, level_up(require, skill, stat, level, xp).0 + 1),
    decreases require.len() - level,
{
    if !(level < 0 || level >= require.len() || xp < require[level]) {
        law_level_up_earns_the_points_of_the_levels_reached(require, skill, stat, level + 1, xp - require[level]);
        lemma_level_up_bounds(require, skill, stat, level + 1, xp - require[level]);
        let l = level_up(require, skill, stat, level, xp).0;
        assert(points_between(skill, level + 1, l + 1) == skill[level + 1] + points_between(skill, level + 2, l + 1));
        assert(points_between(stat, level + 1, l + 1) == stat[level + 1] + points_between(stat, level + 2, l + 1));
    }
}

/// The experience that the levels `from <= k < to` ask to be left.
pub open spec fn xp_between(require: Seq<u64>, from: int, to: int) -> int
    decreases to - from,
{
    if from >= to { 0 } else { require[from] + xp_between(require, from + 1, to) }
}

/// Levelling up pays, in turn, for each level left, and stops at the first
/// level whose requirement the rest does not cover (or at the last level):
/// the experience left is what was held less the requirements of the
/// levels left.
pub proof fn law_level_up_stops_at_the_first_unpaid_level(require: Seq<u64>, skill: Seq<u32>, stat: Seq<u32>, level: int, xp: int)
    requires
        0 <= level,
    ensures
        ({
            let r = level_up(require, skill, stat, level, xp);
            &&& level <= r.0
            &&& r.1 == xp - xp_between(require, level, r.0)
            &&& r.0 < require.len() ==> r.1 < require[r.0]
        }),
    decreases require.len() - level,
{
    if !(level >= require.len() || xp < require[level]) {
        law_level_up_stops_at_the_first_unpaid_level(require, skill, stat, level + 1, xp - require[level]);
        let l = level_up(require, skill, stat, level, xp).0;
        assert(xp_between(require, level, l) == require[level] + xp_between(require, level + 1, l));
    }
}

/// Experience and stamina earned: both added without overflow (stamina up
/// to `max_stamina`), then the character levels up as far as its
/// experience allows. Returns whether the level changed.
pub fn reward_xp(state: &mut ExperienceState, table: &LevelTable, xp: u64, stamina: u32, max_stamina: u32) -> (levelled: bool)
    requires
        table.wf(),
        ({
            let x = if old(state).xp + xp > u64::MAX { u64::MAX as int } else { old(state).xp + xp };
            let r = level_up(table.require_xp@, table.skill_points@, table.stat_points@, old(state).level as int, x);
            old(state).skill_points + r.2 <= u32::MAX && old(state).stat_points + r.3 <= u32::MAX
        }),
    ensures
        ({
            let x = if old(state).xp + xp > u64::MAX { u64::MAX as int } else { old(state).xp + xp };
            let s = if old(state).stamina + stamina > u32::MAX { u32::MAX as int } else { old(state).stamina + stamina };
            let r = level_up(table.require_xp@, table.skill_points@, table.stat_points@, old(state).level as int, x);
            &&& final(state).level == r.0
            &&& final(state).xp == r.1
            &&& final(state).skill_points == old(state).skill_points + r.2
            &&& final(state).stat_points == old(state).stat_points + r.3
            &&& final(state).skill_points == old(state).skill_points + points_between(table.skill_points@, old(state).level + 1, final(state).level + 1)
            &&& final(state).stat_points == old(state).stat_points + points_between(table.stat_points@, old(state).level + 1, final(state).level + 1)
            &&& final(state).xp == x - xp_between(table.require_xp@, old(state).level as int, final(state).level as int)
            &&& final(state).level < table.require_xp@.len() ==> final(state).xp < table.require_xp@[final(state).level as int]
            &&& final(state).stamina == (if s > max_stamina { max_stamina as int } else { s })
            &&& levelled == (r.0 != old(state).level)
        }),
{
    let ghost require = table.require_xp@;
    let ghost skill = table.skill_points@;
    let ghost stat = table.stat_points@;
    state.xp = state.xp.saturating_add(xp);
    state.stamina = state.stamina.saturating_add(stamina);
    if state.stamina > max_stamina {
        state.stamina = max_stamina;
    }
    let level_before = state.level;
    let ghost start_xp = state.xp as int;
    let ghost stamina_after = state.stamina;
    let ghost start = level_up(require, skill, stat, state.level as int, state.xp as int);
    let ghost skill_start = state.skill_points as int;
    let ghost stat_start = state.stat_points as int;
    proof { lemma_level_up_bounds(require, skill, stat, state.level as int, state.xp as int); }
    while (state.level as usize) < table.require_xp.len() && state.xp >= table.require_xp[state.level as usize]
        invariant
            table.wf(),
            require == table.require_xp@,
            skill == table.skill_points@,
            stat == table.stat_points@,
            level_up(require, skill, stat, state.level as int, state.xp as int).0 == start.0,
            level_up(require, skill, stat, state.level as int, state.xp as int).1 == start.1,
            state.skill_points + level_up(require, skill, stat, state.level as int, state.xp as int).2 == skill_start + start.2,
            state.stat_points + level_up(require, skill, stat, state.level as int, state.xp as int).3 == stat_start + start.3,
            skill_start + start.2 <= u32::MAX,
            stat_start + start.3 <= u32::MAX,
            state.stamina == stamina_after,
            state.level >= level_before,
        decreases require.len() - state.level,
    {
        let need = table.require_xp[state.level as usize];
        proof {
            lemma_level_up_bounds(require, skill, stat, state.level as int + 1, state.xp - need);
        }
        state.xp = state.xp - need;
        state.level = state.level + 1;
        state.skill_points = state.skill_points + table.skill_points[state.level as usize];
        state.stat_points = state.stat_points + table.stat_points[state.level as usize];
    }
    assert(level_up(require, skill, stat, state.level as int, state.xp as int) == (state.level as int, state.xp as int, 0int, 0int));
    proof {
        law_level_up_earns_the_points_of_the_levels_reached(require, skill, stat, level_before as int, start_xp);
        law_level_up_stops_at_the_first_unpaid_level(require, skill, stat, level_before as int, start_xp);
    }
    state.level != level_before
}

/// The decimal digits of a number.
pub open spec fn decimal(n: nat) -> Seq<char>
    decreases n,
{
    if n < 10 {
        seq![digit_char(n)]
    } else {
        decimal(n / 10) + seq![digit_char(n % 10)]
    }
}

pub open spec fn digit_char(d: nat) -> char {
    if d == 0 { '0' } else if d == 1 { '1' } else if d == 2 { '2' } else if d == 3 { '3' }
    else if d == 4 { '4' } else if d == 5 { '5' } else if d == 6 { '6' } else if d == 7 { '7' }
    else if d == 8 { '8' } else { '9' }
}

fn digit_text(d: u32) -> (s: &'static str)
    requires
        d < 10,
    ensures
        s@ == seq![digit_char(d as nat)],
{
    let s = if d == 0 { "0" } else if d == 1 { "1" } else if d == 2 { "2" } else if d == 3 { "3" }
        else if d == 4 { "4" } else if d == 5 { "5" } else if d == 6 { "6" } else if d == 7 { "7" }
        else if d == 8 { "8" } else { "9" };
    proof {
        reveal_strlit("0"); reveal_strlit("1"); reveal_strlit("2"); reveal_strlit("3"); reveal_strlit("4");
        reveal_strlit("5"); reveal_strlit("6"); reveal_strlit("7"); reveal_strlit("8"); reveal_strlit("9");
    }
    assert(s@ =~= seq![digit_char(d as nat)]);
    s
}

/// Appends the decimal digits of `n`.
fn append_decimal(text: &mut String, n: u32)
    ensures
        final(text)@ == old(text)@ + decimal(n as nat),
    decreases n,
{
    if n >= 10 {
        append_decimal(text, n / 10);
        text.append(digit_text(n % 10));
        assert(decimal(n as nat) == decimal((n / 10) as nat) + seq![digit_char((n % 10) as nat)]);
    } else {
        text.append(digit_text(n));
    }
}

/// The name of the quest trigger run on reaching a level.
pub open spec fn level_up_trigger_name(level: nat) -> Seq<char> {
    "levelup_"@ + decimal(level)
}

/// The quest triggers run after levelling up from `before` to `after`: one
/// per level reached, in order.
pub fn level_up_triggers(before: u32, after: u32) -> (names: Vec<String>)
    ensures
        names@.len() == (if after > before { after - before } else { 0 }),
        forall|i: int| 0 <= i < names@.len() ==> #[trigger] names@[i]@ == level_up_trigger_name((before + 1 + i) as nat),
{
    let mut names: Vec<String> = Vec::new();
    let mut level = before;
    while level < after
        invariant
            before <= level,
            level <= after || after <= before,
            after > before ==> level <= after,
            after <= before ==> level == before,
            names@.len() == level - before,
            forall|i: int| 0 <= i < names@.len() ==> #[trigger] names@[i]@ == level_up_trigger_name((before + 1 + i) as nat),
        decreases after - level,
    {
        level = level + 1;
        let mut name = String::from_str("levelup_");
        append_decimal(&mut name, level);
        names.push(name);
    }
    assert(after > before ==> level == after);
    names
}

/// The experience needed to go from level `from` up to level `to`.
pub open spec fn required_between(require: Seq<u64>, from: int, to: int) -> int
    decreases to - from,
{
    if to <= from { 0 } else { require[from] + required_between(require, from + 1, to) }
}

/// Levelling up goes as far as the experience allows and spends exactly the
/// requirements of the levels it passes: afterwards the level is at least
/// the old one, the experience left does not cover the new level's
/// requirement (or the table ends there), and the experience left plus what
/// the passed levels required is the experience there was.
pub proof fn law_level_up_spends_requirements(require: Seq<u64>, skill: Seq<u32>, stat: Seq<u32>, level: int, xp: int)
    requires
        0 <= level,
        0 <= xp,
    ensures
        ({
            let (l, x, _, _) = level_up(require, skill, stat, level, xp);
            &&& l >= level
            &&& l >= require.len() || x < require[l]
            &&& x + required_between(require, level, l) == xp
        }),
    decreases require.len() - level,
{
    if !(level >= require.len() || xp < require[level]) {
        law_level_up_spends_requirements(require, skill, stat, level + 1, xp - require[level]);
    }
}

proof fn lemma_required_between_nonneg(require: Seq<u64>, from: int, to: int)
    ensures
        required_between(require, from, to) >= 0,
    decreases to - from,
{
    if to > from {
        lemma_required_between_nonneg(require, from + 1, to);
    }
}

proof fn lemma_required_between_split(require: Seq<u64>, from: int, mid: int, to: int)
    requires
        from <= mid <= to,
    ensures
        required_between(require, from, to) == required_between(require, from, mid) + required_between(require, mid, to),
    decreases mid - from,
{
    if from < mid {
        lemma_required_between_split(require, from + 1, mid, to);
    }
}

proof fn lemma_required_between_step(require: Seq<u64>, from: int, to: int)
    requires
        from <= to,
    ensures
        required_between(require, from, to + 1) == required_between(require, from, to) + require[to],
{
    lemma_required_between_split(require, from, to, to + 1);
    assert(required_between(require, to + 1, to + 1) == 0);
}

/// The experience the "level" chat command hands out: what the levels from
/// the current one up to the target require (nothing when the target is
/// not above the current level).
pub fn level_command_xp(table: &LevelTable, current: u32, target: u32) -> (xp: u64)
    requires
        current < target ==> target <= table.require_xp@.len(),
        required_between(table.require_xp@, current as int, target as int) <= u64::MAX,
    ensures
        xp == required_between(table.require_xp@, current as int, target as int),
{
    let mut xp: u64 = 0;
    let mut level: u32 = current;
    if target <= current {
        return 0;
    }
    while level < target
        invariant
            current <= level <= target,
            target <= table.require_xp@.len(),
            required_between(table.require_xp@, current as int, target as int) <= u64::MAX,
            xp == required_between(table.require_xp@, current as int, level as int),
        decreases target - level,
    {
        proof {
            lemma_required_between_step(table.require_xp@, current as int, level as int);
            lemma_required_between_split(table.require_xp@, current as int, level as int + 1, target as int);
            lemma_required_between_nonneg(table.require_xp@, level as int + 1, target as int);
        }
        xp = xp + table.require_xp[level as usize];
        level = level + 1;
    }
    xp
}

} // verus!

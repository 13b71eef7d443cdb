use vstd::prelude::*;

verus! {

/// Number of union point counters a character keeps.
pub const UNION_POINT_COUNT: usize = 10;

/// The kinds of ability value that quests, chat commands and items name.
#[derive(Clone, Copy, Debug, PartialEq, Eq, Structural)]
pub enum AbilityType {
    Gender,
    Face,
    Hair,
    Class,
    Strength,
    Dexterity,
    Intelligence,
    Concentration,
    Charm,
    Sense,
    Health,
    Mana,
    Experience,
    Level,
    BonusPoint,
    Skillpoint,
    Money,
    Stamina,
    PvpFlag,
    TeamNumber,
    Union,
    UnionPoint1,
    UnionPoint2,
    UnionPoint3,
    UnionPoint4,
    UnionPoint5,
    UnionPoint6,
    UnionPoint7,
    UnionPoint8,
    UnionPoint9,
    UnionPoint10,
}

/// The six basic stats of a character.
#[derive(Clone, Copy, Debug, PartialEq, Eq, Structural)]
pub struct BasicStats {
    pub strength: u16,
    pub dexterity: u16,
    pub intelligence: u16,
    pub concentration: u16,
    pub charm: u16,
    pub sense: u16,
}

/// The appearance and career fields of a character that rewards change.
#[derive(Clone, Copy, Debug, PartialEq, Eq, Structural)]
pub struct CharacterInfo {
    pub gender: u8,
    pub face: u8,
    pub hair: u8,
    pub job: u16,
    pub fame: u8,
}

/// The union a character belongs to and its points with each union.
#[derive(Clone, Debug)]
pub struct UnionMembership {
    pub current_union: Option<usize>,
    pub points: Vec<u32>,
}

/// The union membership as the rules read it.
pub struct UnionMembershipModel {
    pub current_union: Option<usize>,
    pub points: Seq<u32>,
}

impl View for UnionMembership {
    type V = UnionMembershipModel;

    open spec fn view(&self) -> UnionMembershipModel {
        UnionMembershipModel { current_union: self.current_union, points: self.points@ }
    }
}

impl UnionMembership {
    /// A membership keeps exactly one counter per union.
    pub open spec fn wf(self) -> bool {
        self.points@.len() == UNION_POINT_COUNT
    }
}

/// Unspent stat points.
#[derive(Clone, Copy, Debug, PartialEq, Eq, Structural)]
pub struct StatPoints {
    pub points: u32,
}

/// Unspent skill points.
#[derive(Clone, Copy, Debug, PartialEq, Eq, Structural)]
pub struct SkillPoints {
    pub points: u32,
}

/// An amount of money; negative amounts take money away.
#[derive(Clone, Copy, Debug, PartialEq, Eq, Structural)]
pub struct Money(pub i64);

/// The money held in a character's inventory.
#[derive(Clone, Copy, Debug, PartialEq, Eq, Structural)]
pub struct Inventory {
    pub money: Money,
}

impl Inventory {
    /// Adds `money`, failing (and changing nothing) when the sum leaves the
    /// range of an `i64`.
    pub fn try_add_money(&mut self, money: Money) -> (result: Result<(), Money>)
        ensures
            result is Ok <==> i64::MIN <= old(self).money.0 + money.0 <= i64::MAX,
            result is Ok ==> final(self).money.0 == old(self).money.0 + money.0,
            result is Err ==> *final(self) == *old(self) && result == Err::<(), Money>(money),
    {
        match self.money.0.checked_add(money.0) {
            Some(updated) => {
                self.money = Money(updated);
                Ok(())
            },
            None => Err(money),
        }
    }

    /// Takes `money` out, failing (and changing nothing) when less is held.
    pub fn try_take_money(&mut self, money: Money) -> (result: Result<Money, Money>)
        requires
            money.0 >= 0,
        ensures
            result is Ok <==> old(self).money.0 >= money.0,
            result is Ok ==> final(self).money.0 == old(self).money.0 - money.0 && result == Ok::<Money, Money>(money),
            result is Err ==> *final(self) == *old(self) && result == Err::<Money, Money>(money),
    {
        if self.money.0 < money.0 {
            Err(money)
        } else {
            self.money = Money(self.money.0 - money.0);
            Ok(money)
        }
    }
}

/// `value` moved by `add` and held inside `0..=u16::MAX`; a negative `add`
/// subtracts its magnitude, both cut to 16 bits first.
pub open spec fn spec_add_value_u16(value: u16, add: i32) -> u16 {
    if add < 0 {
        let amount = (-add) as u16;
        if value >= amount { (value - amount) as u16 } else { 0 }
    } else {
        let amount = add as u16;
        if value + amount <= u16::MAX { (value + amount) as u16 } else { u16::MAX }
    }
}

/// `value` moved by `add` and held inside `0..=u32::MAX`.
pub open spec fn spec_add_value_u32(value: u32, add: i32) -> u32 {
    if add < 0 {
        let amount = (-add) as u32;
        if value >= amount { (value - amount) as u32 } else { 0 }
    } else {
        let amount = add as u32;
        if value + amount <= u32::MAX { (value + amount) as u32 } else { u32::MAX }
    }
}

/// Saturating addition of a signed amount to a 16 bit stat.
pub fn add_value_u16(value: u16, add_value: i32) -> (result: u16)
    requires
        add_value != i32::MIN,
    ensures
        result == spec_add_value_u16(value, add_value),
{
    if add_value < 0 {
        let amount = (-add_value) as u16;
        value.saturating_sub(amount)
    } else {
        value.saturating_add(add_value as u16)
    }
}

/// Saturating addition of a signed amount to a 32 bit counter.
pub fn add_value_u32(value: u32, add_value: i32) -> (result: u32)
    requires
        add_value != i32::MIN,
    ensures
        result == spec_add_value_u32(value, add_value),
{
    if add_value < 0 {
        let amount = (-add_value) as u32;
        value.saturating_sub(amount)
    } else {
        value.saturating_add(add_value as u32)
    }
}

/// Adding an amount and then taking the same amount away gives back the
/// starting value whenever the first step did not hit the top of the range.
pub proof fn law_add_value_u16_round_trip(value: u16, amount: i32)
    requires
        0 <= amount <= u16::MAX,
        value + amount <= u16::MAX,
    ensures
        spec_add_value_u16(spec_add_value_u16(value, amount), (-amount) as i32) == value,
{
}

/// Adding zero never changes a stat or a counter.
pub proof fn law_add_zero_is_identity(value16: u16, value32: u32)
    ensures
        spec_add_value_u16(value16, 0) == value16,
        spec_add_value_u32(value32, 0) == value32,
{
}

/// Health or mana held within a maximum after the ability values changed;
/// the maximum, computed as a signed number, is read as unsigned.
pub fn limit_to_maximum(points: u32, maximum: i32) -> (limited: u32)
    ensures
        limited == if points > maximum as u32 { maximum as u32 } else { points },
{
    let max: u32 = maximum as u32;
    if points > max { max } else { points }
}

} // verus!

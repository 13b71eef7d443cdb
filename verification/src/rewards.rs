use vstd::prelude::*;
use crate::items::{Equipment, EquipmentItem, InventoryItems, Item};
use crate::stats::{spec_add_value_u16, spec_add_value_u32, add_value_u16, add_value_u32, Money, UnionMembershipModel, AbilityType, BasicStats, CharacterInfo, Inventory, SkillPoints, StatPoints, UnionMembership};

verus! {

/// What the client is told of an ability value a quest reward changed: set
/// to a value, or moved by an amount.
#[derive(Clone, Copy, Debug, PartialEq, Eq, Structural)]
pub enum AbilityUpdate {
    RewardSet(AbilityType, i32),
    RewardAdd(AbilityType, i32),
}

/// The components of the entity a quest reward applies to; a component the
/// entity lacks is `None`.
#[derive(Clone, Debug)]
pub struct QuestSource {
    pub inventory: Option<Inventory>,
    pub items: Option<InventoryItems>,
    pub equipment: Option<Equipment>,
    pub level: u32,
    pub character_info: Option<CharacterInfo>,
    pub basic_stats: Option<BasicStats>,
    pub stat_points: Option<StatPoints>,
    pub skill_points: Option<SkillPoints>,
    pub union_membership: Option<UnionMembership>,
}

/// The quest source as the rules read it.
pub struct QuestSourceModel {
    pub inventory: Option<Inventory>,
    /// The inventory slots.
    pub items: Option<Seq<Option<Item>>>,
    /// The equipment slots, by position.
    pub equipment: Option<Seq<Option<EquipmentItem>>>,
    /// The vehicle part slots, by position.
    pub vehicle: Option<Seq<Option<EquipmentItem>>>,
    pub level: u32,
    pub character_info: Option<CharacterInfo>,
    pub basic_stats: Option<BasicStats>,
    pub stat_points: Option<StatPoints>,
    pub skill_points: Option<SkillPoints>,
    pub union_membership: Option<UnionMembershipModel>,
}

impl View for QuestSource {
    type V = QuestSourceModel;

    open spec fn view(&self) -> QuestSourceModel {
        QuestSourceModel {
            inventory: self.inventory,
            items: match self.items { Some(it) => Some(it.slots@), None => None },
            equipment: match self.equipment { Some(e) => Some(e.equipped@), None => None },
            vehicle: match self.equipment { Some(e) => Some(e.vehicle@), None => None },
            level: self.level,
            character_info: self.character_info,
            basic_stats: self.basic_stats,
            stat_points: self.stat_points,
            skill_points: self.skill_points,
            union_membership: match self.union_membership { Some(um) => Some(um@), None => None },
        }
    }
}

impl QuestSource {
    pub open spec fn wf(self) -> bool {
        &&& self.union_membership matches Some(um) ==> um.wf()
        &&& self.equipment matches Some(e) ==> e.wf()
    }
}

/// The slot in the union point counters that an ability type names.
pub open spec fn union_point_index(ability_type: AbilityType) -> Option<int> {
    match ability_type {
        AbilityType::UnionPoint1 => Some(0int),
        AbilityType::UnionPoint2 => Some(1int),
        AbilityType::UnionPoint3 => Some(2int),
        AbilityType::UnionPoint4 => Some(3int),
        AbilityType::UnionPoint5 => Some(4int),
        AbilityType::UnionPoint6 => Some(5int),
        AbilityType::UnionPoint7 => Some(6int),
        AbilityType::UnionPoint8 => Some(7int),
        AbilityType::UnionPoint9 => Some(8int),
        AbilityType::UnionPoint10 => Some(9int),
        _ => None,
    }
}

fn union_point_slot(ability_type: AbilityType) -> (result: Option<usize>)
    ensures
        result matches Some(i) ==> union_point_index(ability_type) == Some(i as int),
        result is None ==> union_point_index(ability_type) is None,
{
    match ability_type {
        AbilityType::UnionPoint1 => Some(0),
        AbilityType::UnionPoint2 => Some(1),
        AbilityType::UnionPoint3 => Some(2),
        AbilityType::UnionPoint4 => Some(3),
        AbilityType::UnionPoint5 => Some(4),
        AbilityType::UnionPoint6 => Some(5),
        AbilityType::UnionPoint7 => Some(6),
        AbilityType::UnionPoint8 => Some(7),
        AbilityType::UnionPoint9 => Some(8),
        AbilityType::UnionPoint10 => Some(9),
        _ => None,
    }
}

/// A basic stat set to `value` (cut to 16 bits), for the six basic stat kinds.
pub open spec fn basic_stats_with(stats: BasicStats, ability_type: AbilityType, value: u16) -> BasicStats {
    match ability_type {
        AbilityType::Strength => BasicStats { strength: value, ..stats },
        AbilityType::Dexterity => BasicStats { dexterity: value, ..stats },
        AbilityType::Intelligence => BasicStats { intelligence: value, ..stats },
        AbilityType::Concentration => BasicStats { concentration: value, ..stats },
        AbilityType::Charm => BasicStats { charm: value, ..stats },
        _ => BasicStats { sense: value, ..stats },
    }
}

/// The current value of a basic stat kind.
pub open spec fn basic_stat_of(stats: BasicStats, ability_type: AbilityType) -> u16 {
    match ability_type {
        AbilityType::Strength => stats.strength,
        AbilityType::Dexterity => stats.dexterity,
        AbilityType::Intelligence => stats.intelligence,
        AbilityType::Concentration => stats.concentration,
        AbilityType::Charm => stats.charm,
        _ => stats.sense,
    }
}

pub open spec fn is_basic_stat(ability_type: AbilityType) -> bool {
    matches!(ability_type, AbilityType::Strength | AbilityType::Dexterity | AbilityType::Intelligence
        | AbilityType::Concentration | AbilityType::Charm | AbilityType::Sense)
}

/// What setting an ability value does: the new components and whether the
/// reward counts as applied. Appearance and class always count as applied,
/// even for an entity without character info; stats and union values need
/// their component; other kinds are not set by rewards.
pub open spec fn spec_set_ability_value(source: QuestSourceModel, ability_type: AbilityType, value: i32) -> (QuestSourceModel, bool) {
    match ability_type {
        AbilityType::Gender => (QuestSourceModel {
            character_info: match source.character_info { Some(ci) => Some(CharacterInfo { gender: value as u8, ..ci }), None => None },
            ..source }, true),
        AbilityType::Face => (QuestSourceModel {
            character_info: match source.character_info { Some(ci) => Some(CharacterInfo { face: value as u8, ..ci }), None => None },
            ..source }, true),
        AbilityType::Hair => (QuestSourceModel {
            character_info: match source.character_info { Some(ci) => Some(CharacterInfo { hair: value as u8, ..ci }), None => None },
            ..source }, true),
        AbilityType::Class => (QuestSourceModel {
            character_info: match source.character_info { Some(ci) => Some(CharacterInfo { job: value as u16, ..ci }), None => None },
            ..source }, true),
        AbilityType::Union => match source.union_membership {
            Some(um) => (QuestSourceModel {
                union_membership: Some(UnionMembershipModel {
                    current_union: if value == 0 { None } else { Some(value as usize) }, ..um }),
                ..source }, true),
            None => (source, false),
        },
        _ => if is_basic_stat(ability_type) {
            match source.basic_stats {
                Some(bs) => (QuestSourceModel { basic_stats: Some(basic_stats_with(bs, ability_type, value as u16)), ..source }, true),
                None => (source, false),
            }
        } else if let Some(i) = union_point_index(ability_type) {
            match source.union_membership {
                Some(um) => (QuestSourceModel {
                    union_membership: Some(UnionMembershipModel { points: um.points.update(i, value as u32), ..um }),
                    ..source }, true),
                None => (source, false),
            }
        } else {
            (source, false)
        },
    }
}

/// The value of an ability as read from the component that holds it:
/// appearance and class from the character info, the six basic stats from
/// their fields, the union (0 for none) and the union point counters from
/// the union membership. `None` where the source lacks the component, and
/// for kinds that a reward does not set.
pub open spec fn ability_reading(source: QuestSourceModel, ability_type: AbilityType) -> Option<int> {
    match ability_type {
        AbilityType::Gender => match source.character_info { Some(ci) => Some(ci.gender as int), None => None },
        AbilityType::Face => match source.character_info { Some(ci) => Some(ci.face as int), None => None },
        AbilityType::Hair => match source.character_info { Some(ci) => Some(ci.hair as int), None => None },
        AbilityType::Class => match source.character_info { Some(ci) => Some(ci.job as int), None => None },
        AbilityType::Strength => match source.basic_stats { Some(bs) => Some(bs.strength as int), None => None },
        AbilityType::Dexterity => match source.basic_stats { Some(bs) => Some(bs.dexterity as int), None => None },
        AbilityType::Intelligence => match source.basic_stats { Some(bs) => Some(bs.intelligence as int), None => None },
        AbilityType::Concentration => match source.basic_stats { Some(bs) => Some(bs.concentration as int), None => None },
        AbilityType::Charm => match source.basic_stats { Some(bs) => Some(bs.charm as int), None => None },
        AbilityType::Sense => match source.basic_stats { Some(bs) => Some(bs.sense as int), None => None },
        AbilityType::Union => match source.union_membership {
            Some(um) => Some(match um.current_union { Some(u) => u as int, None => 0 }),
            None => None,
        },
        AbilityType::UnionPoint1 => union_points_reading(source, 0),
        AbilityType::UnionPoint2 => union_points_reading(source, 1),
        AbilityType::UnionPoint3 => union_points_reading(source, 2),
        AbilityType::UnionPoint4 => union_points_reading(source, 3),
        AbilityType::UnionPoint5 => union_points_reading(source, 4),
        AbilityType::UnionPoint6 => union_points_reading(source, 5),
        AbilityType::UnionPoint7 => union_points_reading(source, 6),
        AbilityType::UnionPoint8 => union_points_reading(source, 7),
        AbilityType::UnionPoint9 => union_points_reading(source, 8),
        AbilityType::UnionPoint10 => union_points_reading(source, 9),
        _ => None,
    }
}

/// The union point counter at `k`, where the source has one there.
pub open spec fn union_points_reading(source: QuestSourceModel, k: int) -> Option<int> {
    match source.union_membership {
        Some(um) => if k < um.points.len() { Some(um.points[k] as int) } else { None },
        None => None,
    }
}

/// The value that an ability holds after being set to `value`: cut to the
/// width of its field (8 bits for appearance, 16 for class and basic
/// stats, 32 for union points); a union of 0 means none.
pub open spec fn value_as_set(ability_type: AbilityType, value: i32) -> int {
    match ability_type {
        AbilityType::Gender | AbilityType::Face | AbilityType::Hair => (value as u8) as int,
        AbilityType::Class | AbilityType::Strength | AbilityType::Dexterity | AbilityType::Intelligence
        | AbilityType::Concentration | AbilityType::Charm | AbilityType::Sense => (value as u16) as int,
        AbilityType::Union => if value == 0 { 0 } else { (value as usize) as int },
        _ => (value as u32) as int,
    }
}

/// Setting an ability that the source holds counts as applied, and reading
/// that ability back gives the value set (cut to the field's width); every
/// other ability reads as before, and the source's inventory, items,
/// equipment, level, unspent points and fame are untouched.
pub proof fn law_set_ability_reads_back(source: QuestSourceModel, ability_type: AbilityType, other: AbilityType, value: i32)
    requires
        ability_reading(source, ability_type) is Some,
    ensures
        ({
            let (after, applied) = spec_set_ability_value(source, ability_type, value);
            &&& applied
            &&& ability_reading(after, ability_type) == Some(value_as_set(ability_type, value))
            &&& other != ability_type ==> ability_reading(after, other) == ability_reading(source, other)
            &&& after.inventory == source.inventory
            &&& after.items == source.items
            &&& after.equipment == source.equipment
            &&& after.vehicle == source.vehicle
            &&& after.level == source.level
            &&& after.stat_points == source.stat_points
            &&& after.skill_points == source.skill_points
            &&& (after.character_info is Some) == (source.character_info is Some)
            &&& after.character_info matches Some(ci) ==> ci.fame == source.character_info->0.fame
        }),
{
    let after = spec_set_ability_value(source, ability_type, value).0;
    if let Some(i) = union_point_index(ability_type) {
        let um = source.union_membership->0;
        assert(after.union_membership->0.points == um.points.update(i, value as u32));
    }
}

/// Setting an ability that the source does not hold changes nothing; it
/// still counts as applied for appearance and class, and for no other kind.
pub proof fn law_set_ability_without_its_component(source: QuestSourceModel, ability_type: AbilityType, value: i32)
    requires
        ability_reading(source, ability_type) is None,
        source.union_membership matches Some(um) ==> um.points.len() == crate::stats::UNION_POINT_COUNT,
    ensures
        spec_set_ability_value(source, ability_type, value).0 == source,
        spec_set_ability_value(source, ability_type, value).1 == (ability_type is Gender || ability_type is Face
            || ability_type is Hair || ability_type is Class),
{
}

/// Sets an ability value of the quest source; true when the reward counts
/// as applied.
pub fn quest_reward_set_ability_value(source: &mut QuestSource, ability_type: AbilityType, value: i32) -> (result: bool)
    requires
        old(source).wf(),
    ensures
        final(source).wf(),
        (final(source)@, result) == spec_set_ability_value(old(source)@, ability_type, value),
{
    match ability_type {
        AbilityType::Gender => {
            if let Some(mut ci) = source.character_info {
                ci.gender = value as u8;
                source.character_info = Some(ci);
            }
            true
        },
        AbilityType::Face => {
            if let Some(mut ci) = source.character_info {
                ci.face = value as u8;
                source.character_info = Some(ci);
            }
            true
        },
        AbilityType::Hair => {
            if let Some(mut ci) = source.character_info {
                ci.hair = value as u8;
                source.character_info = Some(ci);
            }
            true
        },
        AbilityType::Class => {
            if let Some(mut ci) = source.character_info {
                ci.job = value as u16;
                source.character_info = Some(ci);
            }
            true
        },
        AbilityType::Union => {
            match source.union_membership.take() {
                Some(mut um) => {
                    um.current_union = if value == 0 { None } else { Some(value as usize) };
                    source.union_membership = Some(um);
                    true
                },
                None => false,
            }
        },
        AbilityType::Strength | AbilityType::Dexterity | AbilityType::Intelligence
        | AbilityType::Concentration | AbilityType::Charm | AbilityType::Sense => {
            if let Some(mut bs) = source.basic_stats {
                let v = value as u16;
                match ability_type {
                    AbilityType::Strength => bs.strength = v,
                    AbilityType::Dexterity => bs.dexterity = v,
                    AbilityType::Intelligence => bs.intelligence = v,
                    AbilityType::Concentration => bs.concentration = v,
                    AbilityType::Charm => bs.charm = v,
                    _ => bs.sense = v,
                }
                source.basic_stats = Some(bs);
                true
            } else {
                false
            }
        },
        _ => {
            match union_point_slot(ability_type) {
                Some(index) => {
                    match source.union_membership.take() {
                        Some(mut um) => {
                            um.points.set(index, value as u32);
                            source.union_membership = Some(um);
                            true
                        },
                        None => false,
                    }
                },
                None => false,
            }
        },
    }
}

/// What adding to an ability value does: stats and counters move by
/// `value` and saturate, money changes unless the sum overflows, and the
/// reward counts as applied exactly when the component exists (for money:
/// when the inventory took the amount).
pub open spec fn spec_add_ability_value(source: QuestSourceModel, ability_type: AbilityType, value: i32) -> (QuestSourceModel, bool) {
    if is_basic_stat(ability_type) {
        match source.basic_stats {
            Some(bs) => (QuestSourceModel {
                basic_stats: Some(basic_stats_with(bs, ability_type, spec_add_value_u16(basic_stat_of(bs, ability_type), value))),
                ..source }, true),
            None => (source, false),
        }
    } else if let Some(i) = union_point_index(ability_type) {
        match source.union_membership {
            Some(um) => (QuestSourceModel {
                union_membership: Some(UnionMembershipModel {
                    points: um.points.update(i, spec_add_value_u32(um.points[i], value)), ..um }),
                ..source }, true),
            None => (source, false),
        }
    } else {
        match ability_type {
            AbilityType::BonusPoint => match source.stat_points {
                Some(sp) => (QuestSourceModel { stat_points: Some(StatPoints { points: spec_add_value_u32(sp.points, value) }), ..source }, true),
                None => (source, false),
            },
            AbilityType::Skillpoint => match source.skill_points {
                Some(sp) => (QuestSourceModel { skill_points: Some(SkillPoints { points: spec_add_value_u32(sp.points, value) }), ..source }, true),
                None => (source, false),
            },
            AbilityType::Money => match source.inventory {
                Some(inv) => if i64::MIN <= inv.money.0 + value <= i64::MAX {
                    (QuestSourceModel { inventory: Some(Inventory { money: Money((inv.money.0 + value) as i64) }), ..source }, true)
                } else {
                    (source, false)
                },
                None => (source, false),
            },
            _ => (source, false),
        }
    }
}

/// Adds `value` to an ability value of the quest source; true when the
/// reward counts as applied.
pub fn quest_reward_add_ability_value(source: &mut QuestSource, ability_type: AbilityType, value: i32) -> (result: bool)
    requires
        old(source).wf(),
        value != i32::MIN,
    ensures
        final(source).wf(),
        (final(source)@, result) == spec_add_ability_value(old(source)@, ability_type, value),
{
    match ability_type {
        AbilityType::Strength | AbilityType::Dexterity | AbilityType::Intelligence
        | AbilityType::Concentration | AbilityType::Charm | AbilityType::Sense => {
            if let Some(mut bs) = source.basic_stats {
                match ability_type {
                    AbilityType::Strength => bs.strength = add_value_u16(bs.strength, value),
                    AbilityType::Dexterity => bs.dexterity = add_value_u16(bs.dexterity, value),
                    AbilityType::Intelligence => bs.intelligence = add_value_u16(bs.intelligence, value),
                    AbilityType::Concentration => bs.concentration = add_value_u16(bs.concentration, value),
                    AbilityType::Charm => bs.charm = add_value_u16(bs.charm, value),
                    _ => bs.sense = add_value_u16(bs.sense, value),
                }
                source.basic_stats = Some(bs);
                true
            } else {
                false
            }
        },
        AbilityType::BonusPoint => {
            if let Some(mut sp) = source.stat_points {
                sp.points = add_value_u32(sp.points, value);
                source.stat_points = Some(sp);
                true
            } else {
                false
            }
        },
        AbilityType::Skillpoint => {
            if let Some(mut sp) = source.skill_points {
                sp.points = add_value_u32(sp.points, value);
                source.skill_points = Some(sp);
                true
            } else {
                false
            }
        },
        AbilityType::Money => {
            if let Some(mut inv) = source.inventory {
                let added = inv.try_add_money(Money(value as i64)).is_ok();
                source.inventory = Some(inv);
                added
            } else {
                false
            }
        },
        _ => {
            match union_point_slot(ability_type) {
                Some(index) => {
                    match source.union_membership.take() {
                        Some(mut um) => {
                            let updated = add_value_u32(um.points[index], value);
                            um.points.set(index, updated);
                            source.union_membership = Some(um);
                            true
                        },
                        None => false,
                    }
                },
                None => false,
            }
        },
    }
}

/// Adding a basic stat amount and then subtracting the same amount gives
/// back the starting stat whenever the addition did not saturate.
pub proof fn law_add_then_subtract_ability_value(source: QuestSourceModel, ability_type: AbilityType, value: i32)
    requires
        is_basic_stat(ability_type),
        source.basic_stats is Some,
        0 <= value,
        basic_stat_of(source.basic_stats->0, ability_type) + value <= u16::MAX,
    ensures
        spec_add_ability_value(spec_add_ability_value(source, ability_type, value).0, ability_type, (-value) as i32).0
            == source,
{
    let bs = source.basic_stats->0;
    let once = spec_add_ability_value(source, ability_type, value).0;
    assert(basic_stat_of(once.basic_stats->0, ability_type) == basic_stat_of(bs, ability_type) + value);
    assert(basic_stats_with(once.basic_stats->0, ability_type, basic_stat_of(bs, ability_type)) == bs);
}

} // verus!

use vstd::prelude::*;

verus! {

/// Comparison operator of a quest condition.
#[derive(Clone, Copy, Debug, PartialEq, Eq, Structural)]
pub enum QsdConditionOperator {
    Equals,
    GreaterThan,
    GreaterThanEqual,
    LessThan,
    LessThanEqual,
    NotEqual,
}

/// Comparison operator of an NPC AI condition.
#[derive(Clone, Copy, Debug, PartialEq, Eq, Structural)]
pub enum AipOperatorType {
    Equals,
    GreaterThan,
    GreaterThanEqual,
    LessThan,
    LessThanEqual,
    NotEqual,
}

/// Arithmetic applied by an NPC AI "set variable" action.
#[derive(Clone, Copy, Debug, PartialEq, Eq, Structural)]
pub enum AipResultOperator {
    Assign,
    Add,
    Subtract,
}

/// Meaning of a quest comparison on two integers.
pub open spec fn quest_compare(operator: QsdConditionOperator, lhs: int, rhs: int) -> bool {
    match operator {
        QsdConditionOperator::Equals => lhs == rhs,
        QsdConditionOperator::GreaterThan => lhs > rhs,
        QsdConditionOperator::GreaterThanEqual => lhs >= rhs,
        QsdConditionOperator::LessThan => lhs < rhs,
        QsdConditionOperator::LessThanEqual => lhs <= rhs,
        QsdConditionOperator::NotEqual => lhs != rhs,
    }
}

/// Meaning of an AI comparison on two integers.
pub open spec fn aip_compare(operator: AipOperatorType, lhs: int, rhs: int) -> bool {
    match operator {
        AipOperatorType::Equals => lhs == rhs,
        AipOperatorType::GreaterThan => lhs > rhs,
        AipOperatorType::GreaterThanEqual => lhs >= rhs,
        AipOperatorType::LessThan => lhs < rhs,
        AipOperatorType::LessThanEqual => lhs <= rhs,
        AipOperatorType::NotEqual => lhs != rhs,
    }
}

/// Compares `value_lhs` against `value_rhs` with a quest operator.
pub fn quest_condition_operator(
    operator: QsdConditionOperator,
    value_lhs: i64,
    value_rhs: i64,
) -> (result: bool)
    ensures
        result == quest_compare(operator, value_lhs as int, value_rhs as int),
{
    match operator {
        QsdConditionOperator::Equals => value_lhs == value_rhs,
        QsdConditionOperator::GreaterThan => value_lhs > value_rhs,
        QsdConditionOperator::GreaterThanEqual => value_lhs >= value_rhs,
        QsdConditionOperator::LessThan => value_lhs < value_rhs,
        QsdConditionOperator::LessThanEqual => value_lhs <= value_rhs,
        QsdConditionOperator::NotEqual => value_lhs != value_rhs,
    }
}

/// Compares `value1` against `value2` with an AI operator.
pub fn compare_aip_value(operator: AipOperatorType, value1: i32, value2: i32) -> (result: bool)
    ensures
        result == aip_compare(operator, value1 as int, value2 as int),
{
    match operator {
        AipOperatorType::Equals => value1 == value2,
        AipOperatorType::GreaterThan => value1 > value2,
        AipOperatorType::GreaterThanEqual => value1 >= value2,
        AipOperatorType::LessThan => value1 < value2,
        AipOperatorType::LessThanEqual => value1 <= value2,
        AipOperatorType::NotEqual => value1 != value2,
    }
}

} // verus!

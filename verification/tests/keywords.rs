//! Tests of the keyword enums' `from_str` readers.

use hephaestus::ast::Interval;
use hephaestus::ast::Operation;
use hephaestus::ast::SelectMode;
use hephaestus::ast::Sign;
use hephaestus::ast::Union;

#[test]
fn sign_from_str() {
    assert_eq!(Sign::from_str("+"), Sign::Positive);
    assert_eq!(Sign::from_str("-"), Sign::Negative);
}

#[test]
fn select_mode_from_str() {
    assert_eq!(SelectMode::from_str("DISTINCT"), SelectMode::Distinct);
    assert_eq!(SelectMode::from_str("distinct"), SelectMode::Distinct);
    assert_eq!(SelectMode::from_str("ALL"), SelectMode::All);
    assert_eq!(SelectMode::from_str("all"), SelectMode::All);
}

#[test]
fn interval_from_str() {
    assert_eq!(Interval::from_str("YEAR"), Interval::Year);
    assert_eq!(Interval::from_str("month"), Interval::Month);
    assert_eq!(Interval::from_str("Day"), Interval::Day);
    assert_eq!(Interval::from_str("HOUR"), Interval::Hour);
    assert_eq!(Interval::from_str("minute"), Interval::Minute);
    assert_eq!(Interval::from_str("SECOND"), Interval::Second);
}

#[test]
fn union_from_str() {
    assert_eq!(Union::from_str("UNION ALL"), Union::UnionAll);
    assert_eq!(Union::from_str("UNION"), Union::UnionAll);
    assert_eq!(Union::from_str(" union  all "), Union::UnionAll);
    assert_eq!(Union::from_str("INTERSECT"), Union::Intersect);
    assert_eq!(Union::from_str("MINUS"), Union::Minus);
    assert_eq!(Union::from_str("except"), Union::Except);
}

#[test]
fn operation_from_str() {
    assert_eq!(Operation::from_str("*"), Operation::Multiply);
    assert_eq!(Operation::from_str("/"), Operation::Divide);
    assert_eq!(Operation::from_str("+"), Operation::Add);
    assert_eq!(Operation::from_str("-"), Operation::Subtract);
    assert_eq!(Operation::from_str("||"), Operation::Concat);
    assert_eq!(Operation::from_str("AND"), Operation::And);
    assert_eq!(Operation::from_str("or"), Operation::Or);
    assert_eq!(Operation::from_str("="), Operation::Equal);
    assert_eq!(Operation::from_str("!="), Operation::NotEqual);
    assert_eq!(Operation::from_str(">"), Operation::GreaterThan);
    assert_eq!(Operation::from_str(">="), Operation::GreaterOrEqualThan);
    assert_eq!(Operation::from_str("<"), Operation::LessThan);
    assert_eq!(Operation::from_str("<="), Operation::LessOrEqualThan);
}

//! Each case feeds one source text to the rule it exercises and compares
//! the returned tree in full.
#![allow(unused_imports)]

use hephaestus::ast::AstNode;
use hephaestus::ast::Interval;
use hephaestus::ast::Operation;
use hephaestus::ast::SelectMode;
use hephaestus::ast::Sign;
use hephaestus::parser::SqlParser;

#[test]
fn interval_literal_month() {
    assert_eq!(
        SqlParser::parse_interval_literal("INTERVAL '1' MONTH").unwrap(),
        AstNode::IntervalLiteral {
                interval: Box::new(AstNode::StringLiteral { s: "1".to_string() }),
                period: Interval::Month,
                precision: vec![],
                convert_to: None,
                convert_precision: None,
            }
    );
}

#[test]
fn interval_literal_month_with_precision() {
    assert_eq!(
        SqlParser::parse_interval_literal("INTERVAL '1' MONTH (3)").unwrap(),
        AstNode::IntervalLiteral {
                interval: Box::new(AstNode::StringLiteral { s: "1".to_string() }),
                period: Interval::Month,
                precision: vec![AstNode::IntegerLiteral { s: "3".to_string() }],
                convert_to: None,
                convert_precision: None,
            }
    );
}

#[test]
fn interval_literal_year() {
    assert_eq!(
        SqlParser::parse_interval_literal("INTERVAL '1' YEAR").unwrap(),
        AstNode::IntervalLiteral {
                interval: Box::new(AstNode::StringLiteral { s: "1".to_string() }),
                period: Interval::Year,
                precision: vec![],
                convert_to: None,
                convert_precision: None,
            }
    );
}

#[test]
fn interval_literal_year_with_precision() {
    assert_eq!(
        SqlParser::parse_interval_literal("INTERVAL '1' YEAR (3)").unwrap(),
        AstNode::IntervalLiteral {
                interval: Box::new(AstNode::StringLiteral { s: "1".to_string() }),
                period: Interval::Year,
                precision: vec![AstNode::IntegerLiteral { s: "3".to_string() }],
                convert_to: None,
                convert_precision: None,
            }
    );
}

#[test]
fn interval_literal_year_to_month() {
    assert_eq!(
        SqlParser::parse_interval_literal("INTERVAL '1' YEAR TO MONTH").unwrap(),
        AstNode::IntervalLiteral {
                interval: Box::new(AstNode::StringLiteral { s: "1".to_string() }),
                period: Interval::Year,
                precision: vec![],
                convert_to: Some(Interval::Month),
                convert_precision: None,
            }
    );
}

#[test]
fn interval_literal_year_to_month_with_precision() {
    assert_eq!(
        SqlParser::parse_interval_literal("INTERVAL '1' YEAR (3) TO MONTH").unwrap(),
        AstNode::IntervalLiteral {
                interval: Box::new(AstNode::StringLiteral { s: "1".to_string() }),
                period: Interval::Year,
                precision: vec![AstNode::IntegerLiteral { s: "3".to_string() }],
                convert_to: Some(Interval::Month),
                convert_precision: None,
            }
    );
}

#[test]
fn interval_literal_day() {
    assert_eq!(
        SqlParser::parse_interval_literal("INTERVAL '1' DAY").unwrap(),
        AstNode::IntervalLiteral {
                interval: Box::new(AstNode::StringLiteral { s: "1".to_string() }),
                period: Interval::Day,
                precision: vec![],
                convert_to: None,
                convert_precision: None,
            }
    );
}

#[test]
fn interval_literal_day_with_precision() {
    assert_eq!(
        SqlParser::parse_interval_literal("INTERVAL '1' DAY (3)").unwrap(),
        AstNode::IntervalLiteral {
                interval: Box::new(AstNode::StringLiteral { s: "1".to_string() }),
                period: Interval::Day,
                precision: vec![AstNode::IntegerLiteral { s: "3".to_string() }],
                convert_to: None,
                convert_precision: None,
            }
    );
}

#[test]
fn interval_literal_day_with_precision_to_hour() {
    assert_eq!(
        SqlParser::parse_interval_literal("INTERVAL '1' DAY (3) TO HOUR").unwrap(),
        AstNode::IntervalLiteral {
                interval: Box::new(AstNode::StringLiteral { s: "1".to_string() }),
                period: Interval::Day,
                precision: vec![AstNode::IntegerLiteral { s: "3".to_string() }],
                convert_to: Some(Interval::Hour),
                convert_precision: None,
            }
    );
}

#[test]
fn interval_literal_day_with_precision_to_second_with_precision() {
    assert_eq!(
        SqlParser::parse_interval_literal("INTERVAL '1' DAY (3) TO SECOND (4)").unwrap(),
        AstNode::IntervalLiteral {
                interval: Box::new(AstNode::StringLiteral { s: "1".to_string() }),
                period: Interval::Day,
                precision: vec![AstNode::IntegerLiteral { s: "3".to_string() }],
                convert_to: Some(Interval::Second),
                convert_precision:Some(Box::new(AstNode::IntegerLiteral { s: "4".to_string() }))
            }
    );
}

#[test]
fn interval_literal_second_with_precision_fractional() {
    assert_eq!(
        SqlParser::parse_interval_literal("INTERVAL '1' SECOND (3, 1)").unwrap(),
        AstNode::IntervalLiteral {
                interval: Box::new(AstNode::StringLiteral { s: "1".to_string() }),
                period: Interval::Second,
                precision: vec![
                    AstNode::IntegerLiteral { s: "3".to_string() },
                    AstNode::IntegerLiteral { s: "1".to_string() },
                ],
                convert_to: None,
                convert_precision: None,
            }
    );
}


//! Each case feeds one source text to the rule it exercises and compares
//! the returned tree in full.
#![allow(unused_imports)]

use hephaestus::ast::AstNode;
use hephaestus::ast::Interval;
use hephaestus::ast::Operation;
use hephaestus::ast::SelectMode;
use hephaestus::ast::Sign;
use hephaestus::parser::SqlParser;

#[test]
fn data_type_boolean() {
    assert_eq!(
        SqlParser::parse_data_type("BOOLEAN").unwrap(),
        AstNode::BooleanType
    );
}

#[test]
fn data_type_double() {
    assert_eq!(
        SqlParser::parse_data_type("DOUBLE").unwrap(),
        AstNode::DoubleType
    );
}

#[test]
fn data_type_local_timestamp() {
    assert_eq!(
        SqlParser::parse_data_type("TIMESTAMP").unwrap(),
        AstNode::TimestampType
    );
}

#[test]
fn data_type_timestamp() {
    assert_eq!(
        SqlParser::parse_data_type("TIMESTAMP").unwrap(),
        AstNode::TimestampType
    );
}

#[test]
fn data_type_decimal() {
    assert_eq!(
        SqlParser::parse_data_type("DECIMAL(10, 2)").unwrap(),
        AstNode::DecimalType{
                p: Box::new(AstNode::IntegerLiteral { s: "10".to_string() }),
                s: Box::new(AstNode::IntegerLiteral { s: "2".to_string() })
            }
    );
}

#[test]
fn data_type_char() {
    assert_eq!(
        SqlParser::parse_data_type("CHAR(1)").unwrap(),
        AstNode::CharType {
                n: Box::new(
                AstNode::IntegerLiteral { s: "1".to_string() }
            )}
    );
}

#[test]
fn data_type_date() {
    assert_eq!(
        SqlParser::parse_data_type("DATE").unwrap(),
        AstNode::DateType
    );
}


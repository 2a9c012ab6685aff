//! Each case feeds one source text to the rule it exercises and compares
//! the returned tree in full.
#![allow(unused_imports)]

use hephaestus::ast::AstNode;
use hephaestus::ast::Interval;
use hephaestus::ast::Operation;
use hephaestus::ast::SelectMode;
use hephaestus::ast::Sign;
use hephaestus::parser::SqlParser;

#[test]
fn identifier() {
    assert_eq!(
        SqlParser::parse_identifier("name").unwrap(),
        AstNode::Identifier { s: "name".to_string() }
    );
}

#[test]
fn identifier_upper() {
    assert_eq!(
        SqlParser::parse_identifier("NAME").unwrap(),
        AstNode::Identifier { s: "NAME".to_string() }
    );
}

#[test]
fn idenfier_alphanumeric() {
    assert_eq!(
        SqlParser::parse_identifier("name4").unwrap(),
        AstNode::Identifier { s: "name4".to_string() }
    );
}

#[test]
fn idenfier_underscore() {
    assert_eq!(
        SqlParser::parse_identifier("my_name").unwrap(),
        AstNode::Identifier { s: "my_name".to_string() }
    );
}


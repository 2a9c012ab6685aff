//! Each case feeds one source text to the rule it exercises and compares
//! the returned tree in full.
#![allow(unused_imports)]

use hephaestus::ast::AstNode;
use hephaestus::ast::Interval;
use hephaestus::ast::Operation;
use hephaestus::ast::SelectMode;
use hephaestus::ast::Sign;
use hephaestus::parser::SqlParser;

#[test]
fn column_identifier() {
    assert_eq!(
        SqlParser::parse_column("a").unwrap(),
        AstNode::Identifier { s: "a".to_string() }
    );
}

#[test]
fn column_integer() {
    assert_eq!(
        SqlParser::parse_column("42").unwrap(),
        AstNode::IntegerLiteral { s: "42".to_string() }
    );
}

#[test]
fn column_named_column() {
    assert_eq!(
        SqlParser::parse_column("a AS b").unwrap(),
        AstNode::NamedColumn {
                expr: Box::new(AstNode::Identifier { s: "a".to_string() }),
                alias: Some("b".to_string())
            }
    );
}

#[test]
fn column_named_column_2() {
    assert_eq!(
        SqlParser::parse_column("a.b AS c").unwrap(),
        AstNode::NamedColumn {
                expr: Box::new(AstNode::QualifiedIdentifier {
                    s: vec![
                        AstNode::Identifier { s: "a".to_string() },
                        AstNode::Identifier { s: "b".to_string() }
                    ]
                }),
                alias: Some("c".to_string())
            }
    );
}

#[test]
fn column_named_column_function_expression() {
    assert_eq!(
        SqlParser::parse_column("COALESCE(1, 2) AS a").unwrap(),
        AstNode::NamedColumn {
                expr: Box::new(AstNode::CoalesceFunction {
                    exprs: vec![
                        AstNode::IntegerLiteral { s: "1".to_string() },
                        AstNode::IntegerLiteral { s: "2".to_string() }
                    ]
                }),
                alias: Some("a".to_string())
            }
    );
}

#[test]
fn qualified_identifier_3() {
    assert_eq!(
        SqlParser::parse_qualified_identifier("a.b.c").unwrap(),
        AstNode::QualifiedIdentifier {
            s: vec![
                AstNode::Identifier { s: "a".to_string() },
                AstNode::Identifier { s: "b".to_string() },
                AstNode::Identifier { s: "c".to_string() },
            ]
        }
    );
}

#[test]
fn columns_all_columns() {
    assert_eq!(SqlParser::parse_columns("*").unwrap(), vec![AstNode::AllColumns]);
}

#[test]
fn columns_all_columns_from() {
    assert_eq!(
        SqlParser::parse_columns("a.*").unwrap(),
        vec![AstNode::AllColumnsFrom {
            schema: Box::new(AstNode::Identifier { s: "a".to_string() }),
        }]
    );
}

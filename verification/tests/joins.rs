//! Each case feeds one source text to the rule it exercises and compares
//! the returned tree in full.
#![allow(unused_imports)]

use hephaestus::ast::AstNode;
use hephaestus::ast::Interval;
use hephaestus::ast::Operation;
use hephaestus::ast::SelectMode;
use hephaestus::ast::Sign;
use hephaestus::parser::SqlParser;

#[test]
fn join_clause() {
    assert_eq!(
        SqlParser::parse_join_clause("JOIN b ON a.id = b.id").unwrap(),
        AstNode::JoinClause {
                join_type: Box::new(AstNode::InnerJoin),
                table_expr: Box::new(AstNode::NamedTableExpression {
                    name: Box::new(AstNode::Identifier { s: "b".to_string() }),
                    alias: None,
                }),
                constraint: Box::new(AstNode::JoinConstraintOn {
                    expr: Box::new(AstNode::Expression {
                        left: Box::new(AstNode::QualifiedIdentifier {
                            s: vec![
                                AstNode::Identifier { s: "a".to_string() },
                                AstNode::Identifier { s: "id".to_string() }
                            ]
                        }),
                        op: Operation::Equal,
                        right: Box::new(AstNode::QualifiedIdentifier {
                            s: vec![
                                AstNode::Identifier { s: "b".to_string() },
                                AstNode::Identifier { s: "id".to_string() }
                            ]
                        }),
                    })}
                ),
            }
    );
}

#[test]
fn join_clause_named_tables() {
    assert_eq!(
        SqlParser::parse_join_clause("JOIN b t2 ON t1.id = t2.id").unwrap(),
        AstNode::JoinClause {
                join_type: Box::new(AstNode::InnerJoin),
                table_expr: Box::new(AstNode::NamedTableExpression {
                    name: Box::new(AstNode::Identifier { s: "b".to_string() }),
                    alias: Some("t2".to_string())
                }),
                constraint: Box::new(AstNode::JoinConstraintOn {
                    expr: Box::new(AstNode::Expression {
                        left: Box::new(AstNode::QualifiedIdentifier {
                            s: vec![
                                AstNode::Identifier { s: "t1".to_string() },
                                AstNode::Identifier { s: "id".to_string() }
                            ]
                        }),
                        op: Operation::Equal,
                        right: Box::new(AstNode::QualifiedIdentifier {
                            s: vec![
                                AstNode::Identifier { s: "t2".to_string() },
                                AstNode::Identifier { s: "id".to_string() }
                            ]
                        }),
                    })}
                ),
            }
    );
}

#[test]
fn join_clause_with_and() {
    assert_eq!(
        SqlParser::parse_join_clause("JOIN b ON a.id = b.id AND a.field = b.field").unwrap(),
        AstNode::JoinClause {
                join_type: Box::new(AstNode::InnerJoin),
                table_expr: Box::new(AstNode::NamedTableExpression {
                    name: Box::new(AstNode::Identifier { s: "b".to_string() }),
                    alias: None,
                }),
                constraint: Box::new(AstNode::JoinConstraintOn {
                    expr: Box::new(AstNode::Expression {
                        left: Box::new(AstNode::Expression {
                            left: Box::new(AstNode::QualifiedIdentifier {
                                s: vec![
                                    AstNode::Identifier { s: "a".to_string() },
                                    AstNode::Identifier { s: "id".to_string() }
                                ]
                            }),
                            op: Operation::Equal,
                            right: Box::new(AstNode::QualifiedIdentifier {
                                s: vec![
                                    AstNode::Identifier { s: "b".to_string() },
                                    AstNode::Identifier { s: "id".to_string() }
                                ]
                            }),
                        }),
                        op: Operation::And,
                        right: Box::new(AstNode::Expression {
                            left: Box::new(AstNode::QualifiedIdentifier {
                                s: vec![
                                    AstNode::Identifier { s: "a".to_string() },
                                    AstNode::Identifier { s: "field".to_string() }
                                ]
                            }),
                            op: Operation::Equal,
                            right: Box::new(AstNode::QualifiedIdentifier {
                                s: vec![
                                    AstNode::Identifier { s: "b".to_string() },
                                    AstNode::Identifier { s: "field".to_string() }
                                ]
                            }),
                        })
                    })
                }),
            }
    );
}

#[test]
fn join_type_inner_join() {
    assert_eq!(
        SqlParser::parse_join_type("JOIN").unwrap(),
        AstNode::InnerJoin
    );
}

#[test]
fn join_type_inner_join_2() {
    assert_eq!(
        SqlParser::parse_join_type("INNER JOIN").unwrap(),
        AstNode::InnerJoin
    );
}

#[test]
fn join_type_left_outer_join() {
    assert_eq!(
        SqlParser::parse_join_type("LEFT JOIN").unwrap(),
        AstNode::LeftOuterJoin
    );
}

#[test]
fn join_type_left_outer_join_2() {
    assert_eq!(
        SqlParser::parse_join_type("LEFT OUTER JOIN").unwrap(),
        AstNode::LeftOuterJoin
    );
}

#[test]
fn join_type_right_outer_join() {
    assert_eq!(
        SqlParser::parse_join_type("RIGHT JOIN").unwrap(),
        AstNode::RightOuterJoin
    );
}

#[test]
fn join_type_right_outer_join_2() {
    assert_eq!(
        SqlParser::parse_join_type("RIGHT OUTER JOIN").unwrap(),
        AstNode::RightOuterJoin
    );
}

#[test]
fn join_type_full_outer() {
    assert_eq!(
        SqlParser::parse_join_type("FULL OUTER JOIN").unwrap(),
        AstNode::FullOuterJoin
    );
}

#[test]
fn join_constraint_on() {
    assert_eq!(
        SqlParser::parse_join_constraint("ON a = b").unwrap(),
        AstNode::JoinConstraintOn {
                expr: Box::new(AstNode::Expression {
                    left: Box::new(AstNode::Identifier { s: "a".to_string() }),
                    op: Operation::Equal,
                    right: Box::new(AstNode::Identifier { s: "b".to_string() }),
                })
            }
    );
}

#[test]
fn join_constraint_using() {
    assert_eq!(
        SqlParser::parse_join_constraint("USING (a)").unwrap(),
        AstNode::JoinConstraintUsing {
                columns: vec![AstNode::Identifier { s: "a".to_string() }]
            }
    );
}

#[test]
fn join_constraint_using_2() {
    assert_eq!(
        SqlParser::parse_join_constraint("USING (a, b)").unwrap(),
        AstNode::JoinConstraintUsing {
                columns: vec![
                    AstNode::Identifier { s: "a".to_string() },
                    AstNode::Identifier { s: "b".to_string() },
                ]
            }
    );
}


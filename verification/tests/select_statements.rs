//! Each case feeds one source text to the rule it exercises and compares
//! the returned tree in full.
#![allow(unused_imports)]

use hephaestus::ast::AstNode;
use hephaestus::ast::Interval;
use hephaestus::ast::Operation;
use hephaestus::ast::SelectMode;
use hephaestus::ast::Sign;
use hephaestus::parser::SqlParser;

#[test]
fn with_clause() {
    assert_eq!(
        SqlParser::parse_with_clause("my_cte AS ( SELECT 1 )").unwrap(),
        AstNode::WithClause {
                identifier: Box::new(AstNode::Identifier { s: "my_cte".to_string() }),
                columns: vec![],
                query: Box::new(AstNode::SelectStatement {
                    common: vec![],
                    mode: SelectMode::All,
                    columns: vec![AstNode::IntegerLiteral { s: "1".to_string() }],
                    table_exprs: vec![],
                    where_expr: None,
                    group_by: None,
                }),
            }
    );
}

#[test]
fn where_with_expression() {
    assert_eq!(
        SqlParser::parse_where_clause("WHERE a = 1").unwrap(),
        AstNode::Expression {
                left: Box::new(AstNode::Identifier { s: "a".to_string() }),
                op: Operation::Equal,
                right: Box::new(AstNode::IntegerLiteral { s: "1".to_string() })
            }
    );
}

#[test]
fn where_with_expression_multi() {
    assert_eq!(
        SqlParser::parse_where_clause("WHERE TRUE AND a = 1").unwrap(),
        AstNode::Expression {
                left: Box::new(AstNode::BooleanLiteral { s: "TRUE".to_string() }),
                op: Operation::And,
                right: Box::new(AstNode::Expression {
                    left: Box::new(AstNode::Identifier { s: "a".to_string() }),
                    op: Operation::Equal,
                    right: Box::new(AstNode::IntegerLiteral { s: "1".to_string() })
                })
            }
    );
}

#[test]
fn where_with_unary_expression() {
    assert_eq!(
        SqlParser::parse_where_clause("WHERE a IS NULL AND a = 1").unwrap(),
        AstNode::Expression {
                left: Box::new(AstNode::IsNullExpression {
                    expr: Box::new(AstNode::Identifier { s: "a".to_string() }),
                    is_null: true,
                }),
                op: Operation::And,
                right: Box::new(AstNode::Expression {
                    left: Box::new(AstNode::Identifier { s: "a".to_string() }),
                    op: Operation::Equal,
                    right: Box::new(AstNode::IntegerLiteral { s: "1".to_string() })
                })
            }
    );
}

#[test]
fn select_literal() {
    assert_eq!(
        SqlParser::parse_select_statement("SELECT 1").unwrap(),
        AstNode::SelectStatement {
                common: vec![],
                mode: SelectMode::All,
                columns: vec![AstNode::IntegerLiteral { s: "1".to_string() }],
                table_exprs: vec![],
                where_expr: None,
                group_by: None,
            }
    );
}

#[test]
fn select_with_cte() {
    assert_eq!(
        SqlParser::parse_select_statement("WITH my_cte AS ( SELECT 1 AS c ) SELECT c FROM my_cte").unwrap(),
        AstNode::SelectStatement {
                common: vec![AstNode::WithClause {
                    identifier: Box::new(AstNode::Identifier { s: "my_cte".to_string() }),
                    columns: vec![],
                    query: Box::new(AstNode::SelectStatement {
                        common: vec![],
                        mode: SelectMode::All,
                        columns: vec![AstNode::NamedColumn {
                            expr: Box::new(AstNode::IntegerLiteral { s: "1".to_string() }),
                            alias: Some("c".to_string())
                        }],
                        table_exprs: vec![],
                        where_expr: None,
                        group_by: None,
                    }),
                }],
                mode: SelectMode::All,
                columns: vec![AstNode::Identifier { s: "c".to_string() }],
                table_exprs: vec![AstNode::NamedTableExpression {
                    name: Box::new(AstNode::Identifier{ s: "my_cte".to_string() }),
                    alias: None,
                }],
                where_expr: None,
                group_by: None,
            }
    );
}

#[test]
fn select_with_cte_2() {
    assert_eq!(
        SqlParser::parse_select_statement("WITH cte_1 AS ( SELECT 1 AS a ), cte_2 AS ( SELECT 1 AS b ) SELECT a FROM cte_1").unwrap(),
        AstNode::SelectStatement {
                common: vec![
                    AstNode::WithClause {
                        identifier: Box::new(AstNode::Identifier { s: "cte_1".to_string() }),
                        columns: vec![],
                        query: Box::new(AstNode::SelectStatement {
                            common: vec![],
                            mode: SelectMode::All,
                            columns: vec![AstNode::NamedColumn {
                                expr: Box::new(AstNode::IntegerLiteral { s: "1".to_string() }),
                                alias: Some("a".to_string())
                            }],
                            table_exprs: vec![],
                            where_expr: None,
                            group_by: None,
                        }),
                    },
                    AstNode::WithClause {
                        identifier: Box::new(AstNode::Identifier { s: "cte_2".to_string() }),
                        columns: vec![],
                        query: Box::new(AstNode::SelectStatement {
                            common: vec![],
                            mode: SelectMode::All,
                            columns: vec![AstNode::NamedColumn {
                                expr: Box::new(AstNode::IntegerLiteral { s: "1".to_string() }),
                                alias: Some("b".to_string())
                            }],
                            table_exprs: vec![],
                            where_expr: None,
                            group_by: None,
                        }),
                    }
                ],
                mode: SelectMode::All,
                columns: vec![AstNode::Identifier { s: "a".to_string() }],
                table_exprs: vec![AstNode::NamedTableExpression {
                    name: Box::new(AstNode::Identifier{ s: "cte_1".to_string() }),
                    alias: None,
                }],
                where_expr: None,
                group_by: None,
            }
    );
}

#[test]
fn select_two_fields_from_table() {
    assert_eq!(
        SqlParser::parse_select_statement("SELECT a, b FROM table").unwrap(),
        AstNode::SelectStatement {
                common: vec![],
                mode: SelectMode::All,
                columns: vec![
                    AstNode::Identifier { s: "a".to_string() },
                    AstNode::Identifier { s: "b".to_string() }
                ],
                table_exprs: vec![
                    AstNode::NamedTableExpression {
                        name: Box::new(AstNode::Identifier{ s: "table".to_string() }),
                        alias: None,
                    }
                ],
                where_expr: None,
                group_by: None,
            }
    );
}

#[test]
fn select_two_fields_from_table_with_schema() {
    assert_eq!(
        SqlParser::parse_select_statement("SELECT a, b FROM schema.table").unwrap(),
        AstNode::SelectStatement {
                common: vec![],
                mode: SelectMode::All,
                columns: vec![
                    AstNode::Identifier { s: "a".to_string() },
                    AstNode::Identifier { s: "b".to_string() }
                ],
                table_exprs: vec![AstNode::NamedTableExpression {
                    name: Box::new(AstNode::QualifiedIdentifier {
                        s: vec![
                            AstNode::Identifier { s: "schema".to_string() },
                            AstNode::Identifier { s: "table".to_string() }
                        ]
                    }),
                    alias: None,
                }],
                where_expr: None,
                group_by: None,
            }
    );
}

#[test]
fn select_two_fields_from_named_table() {
    assert_eq!(
        SqlParser::parse_select_statement("SELECT a, b FROM table AS alias").unwrap(),
        AstNode::SelectStatement {
                common: vec![],
                mode: SelectMode::All,
                columns: vec![
                    AstNode::Identifier { s: "a".to_string() },
                    AstNode::Identifier { s: "b".to_string() }
                ],
                table_exprs: vec![
                    AstNode::NamedTableExpression{
                        name: Box::new(AstNode::Identifier { s: "table".to_string() }),
                        alias: Some("alias".to_string())
                    },
                ],
                where_expr: None,
                group_by: None,
            }
    );
}

#[test]
fn select_two_fields_from_named_table_2() {
    assert_eq!(
        SqlParser::parse_select_statement("SELECT a, b FROM schema.table AS alias").unwrap(),
        AstNode::SelectStatement {
                common: vec![],
                mode: SelectMode::All,
                columns: vec![
                    AstNode::Identifier { s: "a".to_string() },
                    AstNode::Identifier { s: "b".to_string() }
                ],
                table_exprs: vec![
                    AstNode::NamedTableExpression{
                        name: Box::new(
                            AstNode::QualifiedIdentifier {
                                s: vec![
                                    AstNode::Identifier { s: "schema".to_string() },
                                    AstNode::Identifier { s: "table".to_string() }
                                ]
                            }
                        ),
                        alias: Some("alias".to_string())
                    },
                ],
                where_expr: None,
                group_by: None,
            }
    );
}

#[test]
fn select_all_from_named_table_short() {
    assert_eq!(
        SqlParser::parse_select_statement("SELECT * FROM schema.table alias").unwrap(),
        AstNode::SelectStatement {
                common: vec![],
                mode: SelectMode::All,
                columns: vec![AstNode::AllColumns],
                table_exprs: vec![
                    AstNode::NamedTableExpression{
                        name: Box::new(
                            AstNode::QualifiedIdentifier {
                                s: vec![
                                    AstNode::Identifier { s: "schema".to_string() },
                                    AstNode::Identifier { s: "table".to_string() }
                                ]
                            }
                        ),
                        alias: Some("alias".to_string())
                    },
                ],
                where_expr: None,
                group_by: None,
            }
    );
}

#[test]
fn select_join() {
    assert_eq!(
        SqlParser::parse_select_statement("SELECT * FROM a JOIN b ON a.id = b.id").unwrap(),
        AstNode::SelectStatement {
                common: vec![],
                mode: SelectMode::All,
                columns: vec![AstNode::AllColumns],
                table_exprs: vec![
                    AstNode::NamedTableExpression {
                        name: Box::new(AstNode::Identifier{ s: "a".to_string() }),
                        alias: None,
                    },
                    AstNode::JoinClause {
                        join_type: Box::new(AstNode::InnerJoin),
                        table_expr: Box::new(AstNode::NamedTableExpression {
                            name: Box::new(AstNode::Identifier{ s: "b".to_string() }),
                            alias: None,
                        }),
                        constraint: Box::new(AstNode::JoinConstraintOn {
                            expr: Box::new(AstNode::Expression {
                                left: Box::new(AstNode::QualifiedIdentifier {
                                    s: vec![
                                        AstNode::Identifier { s: "a".to_string() },
                                        AstNode::Identifier { s: "id".to_string() }
                                    ]
                                }),
                                op: Operation::Equal,
                                right: Box::new(AstNode::QualifiedIdentifier {
                                    s: vec![
                                        AstNode::Identifier { s: "b".to_string() },
                                        AstNode::Identifier { s: "id".to_string() }
                                    ]
                                }),
                            })
                        }),
                    }
                ],
                where_expr: None,
                group_by: None,
            }
    );
}

#[test]
fn select_where_clause() {
    assert_eq!(
        SqlParser::parse_select_statement("SELECT * WHERE a = 1").unwrap(),
        AstNode::SelectStatement {
                common: vec![],
                mode: SelectMode::All,
                columns: vec![AstNode::AllColumns],
                table_exprs: vec![],
                where_expr: Some(Box::new(AstNode::Expression {
                    left: Box::new(AstNode::Identifier { s: "a".to_string() }),
                    op: Operation::Equal,
                    right: Box::new(AstNode::IntegerLiteral { s: "1".to_string() }),
                })),
                group_by: None,
            }
    );
}

#[test]
fn select_where_clause_from_table() {
    assert_eq!(
        SqlParser::parse_select_statement("SELECT * FROM a WHERE b = 1").unwrap(),
        AstNode::SelectStatement {
                common: vec![],
                mode: SelectMode::All,
                columns: vec![AstNode::AllColumns],
                table_exprs: vec![AstNode::NamedTableExpression {
                    name: Box::new(AstNode::Identifier{ s: "a".to_string() }),
                    alias: None,
                }],
                where_expr: Some(Box::new(AstNode::Expression {
                    left: Box::new(AstNode::Identifier { s: "b".to_string() }),
                    op: Operation::Equal,
                    right: Box::new(AstNode::IntegerLiteral { s: "1".to_string() }),
                })),
                group_by: None,
            }
    );
}

#[test]
fn select_distinct() {
    assert_eq!(
        SqlParser::parse_select_statement("SELECT DISTINCT a").unwrap(),
        AstNode::SelectStatement {
                common: vec![],
                mode: SelectMode::Distinct,
                columns: vec![AstNode::Identifier { s: "a".to_string() }],
                table_exprs: vec![],
                where_expr: None,
                group_by: None,
            }
    );
}

#[test]
fn select_all() {
    assert_eq!(
        SqlParser::parse_select_statement("SELECT ALL a").unwrap(),
        AstNode::SelectStatement {
                common: vec![],
                mode: SelectMode::All,
                columns: vec![AstNode::Identifier { s: "a".to_string() }],
                table_exprs: vec![],
                where_expr: None,
                group_by: None,
            }
    );
}

#[test]
fn select_group_by() {
    assert_eq!(
        SqlParser::parse_select_statement("SELECT a GROUP BY a").unwrap(),
        AstNode::SelectStatement {
                common: vec![],
                mode: SelectMode::All,
                columns: vec![AstNode::Identifier { s: "a".to_string() }],
                table_exprs: vec![],
                where_expr: None,
                group_by: Some(Box::new(AstNode::GroupBy {
                    groupings: vec![AstNode::Identifier { s: "a".to_string() }],
                    having: None
                }))
            }
    );
}

#[test]
fn select_join_clause_multiple() {
    assert_eq!(
        SqlParser::parse_select_statement("SELECT * FROM a JOIN b ON a.id = b.id JOIN c ON a.id = c.id").unwrap(),
        AstNode::SelectStatement {
                common: vec![],
                mode: SelectMode::All,
                columns: vec![AstNode::AllColumns],
                table_exprs: vec![
                    AstNode::NamedTableExpression {
                        name: Box::new(AstNode::Identifier { s: "a".to_string() }),
                        alias: None,
                    },
                    AstNode::JoinClause {
                        join_type: Box::new(AstNode::InnerJoin),
                        table_expr: Box::new(AstNode::NamedTableExpression {
                            name: Box::new(AstNode::Identifier { s: "b".to_string() }),
                            alias: None,
                        }),
                        constraint: Box::new(AstNode::JoinConstraintOn {
                            expr: Box::new(AstNode::Expression {
                                left: Box::new(AstNode::QualifiedIdentifier {
                                    s: vec![
                                        AstNode::Identifier { s: "a".to_string() },
                                        AstNode::Identifier { s: "id".to_string() }
                                    ]
                                }),
                                op: Operation::Equal,
                                right: Box::new(AstNode::QualifiedIdentifier {
                                    s: vec![
                                        AstNode::Identifier { s: "b".to_string() },
                                        AstNode::Identifier { s: "id".to_string() }
                                    ]
                                }),
                            })
                        }),
                    },
                    AstNode::JoinClause {
                        join_type: Box::new(AstNode::InnerJoin),
                        table_expr: Box::new(AstNode::NamedTableExpression {
                            name: Box::new(AstNode::Identifier { s: "c".to_string() }),
                            alias: None,
                        }),
                        constraint: Box::new(AstNode::JoinConstraintOn {
                            expr: Box::new(AstNode::Expression {
                                left: Box::new(AstNode::QualifiedIdentifier {
                                    s: vec![
                                        AstNode::Identifier { s: "a".to_string() },
                                        AstNode::Identifier { s: "id".to_string() }
                                    ]
                                }),
                                op: Operation::Equal,
                                right: Box::new(AstNode::QualifiedIdentifier {
                                    s: vec![
                                        AstNode::Identifier { s: "c".to_string() },
                                        AstNode::Identifier { s: "id".to_string() }
                                    ]
                                }),
                            })
                        }),
                    }
                ],
                where_expr: None,
                group_by: None,
            }
    );
}

#[test]
fn comment_before_statement() {
    assert_eq!(
        SqlParser::parse_select_statement(r#"
                -- comment
                select 1
            "#.trim()).unwrap(),
        AstNode::SelectStatement {
                common: vec![],
                mode: SelectMode::All,
                columns: vec![AstNode::IntegerLiteral { s: "1".to_string() }],
                table_exprs: vec![],
                where_expr: None,
                group_by: None,
            }
    );
}

#[test]
fn comment_inline() {
    assert_eq!(
        SqlParser::parse_select_statement("select 1 -- comment").unwrap(),
        AstNode::SelectStatement {
                common: vec![],
                mode: SelectMode::All,
                columns: vec![AstNode::IntegerLiteral { s: "1".to_string() }],
                table_exprs: vec![],
                where_expr: None,
                group_by: None,
            }
    );
}

#[test]
fn not_a_comment() {
    assert_eq!(
        SqlParser::parse_select_statement("select '--'").unwrap(),
        AstNode::SelectStatement {
                common: vec![],
                mode: SelectMode::All,
                columns: vec![AstNode::StringLiteral { s: "--".to_string() }],
                table_exprs: vec![],
                where_expr: None,
                group_by: None,
            }
    );
}


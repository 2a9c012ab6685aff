//! Scenario tests for the stated behaviour of the parser: precedence and
//! associativity on concrete inputs, case and interval round trips, the
//! unknown-function fallback, comment handling, joins and CTE order, and
//! the error surface.

#![allow(unused_imports)]

use hephaestus::ast::AstNode;
use hephaestus::ast::Interval;
use hephaestus::ast::Operation;
use hephaestus::ast::SelectMode;
use hephaestus::ast::Sign;
use hephaestus::ast::Union;
use hephaestus::parser::SqlParser;
use hephaestus::parser::parse;

fn ident(s: &str) -> Box<AstNode> {
    Box::new(AstNode::Identifier { s: s.to_string() })
}

#[test]
fn comparison_groups_below_subtraction() {
    assert_eq!(
        SqlParser::parse_expression("a = b - c").unwrap(),
        AstNode::Expression {
            left: ident("a"),
            op: Operation::Equal,
            right: Box::new(AstNode::Expression {
                left: ident("b"),
                op: Operation::Subtract,
                right: ident("c"),
            }),
        }
    );
}

#[test]
fn subtraction_is_left_associative() {
    assert_eq!(
        SqlParser::parse_expression("a - b - c").unwrap(),
        AstNode::Expression {
            left: Box::new(AstNode::Expression {
                left: ident("a"),
                op: Operation::Subtract,
                right: ident("b"),
            }),
            op: Operation::Subtract,
            right: ident("c"),
        }
    );
}

#[test]
fn concat_binds_tighter_than_comparison() {
    assert_eq!(
        SqlParser::parse_expression("a || b = c").unwrap(),
        AstNode::Expression {
            left: Box::new(AstNode::Expression {
                left: ident("a"),
                op: Operation::Concat,
                right: ident("b"),
            }),
            op: Operation::Equal,
            right: ident("c"),
        }
    );
}

#[test]
fn multiplication_binds_tighter_than_concat() {
    assert_eq!(
        SqlParser::parse_expression("a || b * c").unwrap(),
        AstNode::Expression {
            left: ident("a"),
            op: Operation::Concat,
            right: Box::new(AstNode::Expression {
                left: ident("b"),
                op: Operation::Multiply,
                right: ident("c"),
            }),
        }
    );
}

#[test]
fn case_round_trip_simple_and_searched() {
    let when = AstNode::WhenClause {
        guard: Box::new(AstNode::IntegerLiteral { s: "1".to_string() }),
        body: Box::new(AstNode::StringLiteral { s: "one".to_string() }),
    };
    let simple = SqlParser::parse_expression("CASE a WHEN 1 THEN 'one' ELSE 'zero' END").unwrap();
    assert_eq!(
        simple,
        AstNode::CaseExpression {
            expr: Some(ident("a")),
            when_expr: vec![when],
            else_expr: Some(Box::new(AstNode::StringLiteral { s: "zero".to_string() })),
        }
    );
    // omitting the scrutinee yields the searched form with an otherwise
    // identical tree
    let searched = SqlParser::parse_expression("CASE WHEN 1 THEN 'one' ELSE 'zero' END").unwrap();
    match (simple, searched) {
        (
            AstNode::CaseExpression { expr: Some(_), when_expr: w1, else_expr: e1 },
            AstNode::CaseExpression { expr: None, when_expr: w2, else_expr: e2 },
        ) => {
            assert_eq!(w1, w2);
            assert_eq!(e1, e2);
        },
        _ => panic!("both forms must be case expressions"),
    }
}

#[test]
fn interval_conversion_round_trip() {
    assert_eq!(
        SqlParser::parse_interval_literal("INTERVAL '1' DAY (3) TO SECOND (4)").unwrap(),
        AstNode::IntervalLiteral {
            interval: Box::new(AstNode::StringLiteral { s: "1".to_string() }),
            period: Interval::Day,
            precision: vec![AstNode::IntegerLiteral { s: "3".to_string() }],
            convert_to: Some(Interval::Second),
            convert_precision: Some(Box::new(AstNode::IntegerLiteral { s: "4".to_string() })),
        }
    );
}

#[test]
fn interval_conversion_must_stay_in_family() {
    assert!(SqlParser::parse_interval_literal("INTERVAL '1' YEAR TO SECOND").is_err());
    assert!(SqlParser::parse_interval_literal("INTERVAL '1' SECOND TO DAY").is_err());
    assert!(SqlParser::parse_interval_literal("INTERVAL '1' YEAR TO YEAR").is_err());
}

#[test]
fn interval_fractional_precision_only_for_second() {
    assert!(SqlParser::parse_interval_literal("INTERVAL '1' DAY (3, 1)").is_err());
}

#[test]
fn unknown_function_fallback() {
    assert_eq!(
        SqlParser::parse_expression("my_func(a, b)").unwrap(),
        AstNode::UnknownFunction {
            name: ident("my_func"),
            exprs: vec![
                AstNode::Identifier { s: "a".to_string() },
                AstNode::Identifier { s: "b".to_string() },
            ],
        }
    );
}

#[test]
fn trailing_comment_changes_nothing() {
    assert_eq!(
        parse("SELECT a, b FROM t WHERE a = 1").unwrap(),
        parse("SELECT a, b FROM t WHERE a = 1 -- trailing note").unwrap()
    );
    assert_eq!(
        parse("select 1").unwrap(),
        parse("select 1 -- comment").unwrap()
    );
}

#[test]
fn comment_marker_inside_string_is_kept() {
    assert_eq!(
        parse("select '--'").unwrap(),
        AstNode::SelectStatement {
            common: vec![],
            mode: SelectMode::All,
            columns: vec![AstNode::StringLiteral { s: "--".to_string() }],
            table_exprs: vec![],
            where_expr: None,
            group_by: None,
        }
    );
}

#[test]
fn join_with_using_constraint() {
    assert_eq!(
        parse("SELECT * FROM a LEFT JOIN b USING (id)").unwrap(),
        AstNode::SelectStatement {
            common: vec![],
            mode: SelectMode::All,
            columns: vec![AstNode::AllColumns],
            table_exprs: vec![
                AstNode::NamedTableExpression { name: ident("a"), alias: None },
                AstNode::JoinClause {
                    join_type: Box::new(AstNode::LeftOuterJoin),
                    table_expr: Box::new(AstNode::NamedTableExpression {
                        name: ident("b"),
                        alias: None,
                    }),
                    constraint: Box::new(AstNode::JoinConstraintUsing {
                        columns: vec![AstNode::Identifier { s: "id".to_string() }],
                    }),
                },
            ],
            where_expr: None,
            group_by: None,
        }
    );
}

#[test]
fn cte_order_follows_the_source() {
    let ast = parse("WITH c1 AS ( SELECT 1 ), c2 AS ( SELECT 2 ) SELECT a FROM c1").unwrap();
    match ast {
        AstNode::SelectStatement { common, .. } => {
            assert_eq!(common.len(), 2);
            match (&common[0], &common[1]) {
                (
                    AstNode::WithClause { identifier: i1, .. },
                    AstNode::WithClause { identifier: i2, .. },
                ) => {
                    assert_eq!(**i1, AstNode::Identifier { s: "c1".to_string() });
                    assert_eq!(**i2, AstNode::Identifier { s: "c2".to_string() });
                },
                _ => panic!("both entries must be with-clauses"),
            }
        },
        _ => panic!("must be a select statement"),
    }
}

#[test]
fn empty_input_is_an_error() {
    assert!(parse("").is_err());
    assert!(parse("   ").is_err());
}

#[test]
fn lexical_error_carries_its_offset() {
    let e = parse("select ?").unwrap_err();
    assert_eq!(e.pos, 7);
}

#[test]
fn unterminated_string_is_an_error() {
    assert!(parse("select 'abc").is_err());
}

#[test]
fn leftover_tokens_are_an_error() {
    assert!(parse("select 1 2extra").is_err());
    assert!(SqlParser::parse_expression("a = ").is_err());
}

#[test]
fn keywords_match_in_any_case() {
    assert_eq!(
        parse("Select Distinct a From t").unwrap(),
        parse("SELECT DISTINCT a FROM t").unwrap()
    );
}

#[test]
fn multiplication_and_addition_nest_by_precedence() {
    assert_eq!(
        SqlParser::parse_expression("a + b * c").unwrap(),
        AstNode::Expression {
            left: ident("a"),
            op: Operation::Add,
            right: Box::new(AstNode::Expression {
                left: ident("b"),
                op: Operation::Multiply,
                right: ident("c"),
            }),
        }
    );
}

//! Each case feeds one source text to the rule it exercises and compares
//! the returned tree in full.
#![allow(unused_imports)]

use hephaestus::ast::AstNode;
use hephaestus::ast::Interval;
use hephaestus::ast::Operation;
use hephaestus::ast::SelectMode;
use hephaestus::ast::Sign;
use hephaestus::parser::SqlParser;

#[test]
fn expression_identifier() {
    assert_eq!(
        SqlParser::parse_expression("a").unwrap(),
        AstNode::Identifier { s: "a".to_string() }
    );
}

#[test]
fn expression_qualified_identifier() {
    assert_eq!(
        SqlParser::parse_expression("a.b").unwrap(),
        AstNode::QualifiedIdentifier {
                s: vec![
                    AstNode::Identifier { s: "a".to_string() },
                    AstNode::Identifier { s: "b".to_string() }
                ]
            }
    );
}

#[test]
fn expression_integer() {
    assert_eq!(
        SqlParser::parse_expression("42").unwrap(),
        AstNode::IntegerLiteral { s: "42".to_string() }
    );
}

#[test]
fn expression_signed_expression() {
    assert_eq!(
        SqlParser::parse_expression("-42").unwrap(),
        AstNode::SignedExpression{
                sign: Sign::Negative,
                expr: Box::new(AstNode::IntegerLiteral { s: "42".to_string() })
            }
    );
}

#[test]
fn expression_with_comment() {
    assert_eq!(
        SqlParser::parse_expression(r#"
                a
                -- comment
                AND b
            "#.trim()).unwrap(),
        AstNode::Expression {
                left: Box::new(AstNode::Identifier { s: "a".to_string() }),
                op: Operation::And,
                right: Box::new(AstNode::Identifier { s: "b".to_string() }),
            }
    );
}

#[test]
fn expression_equals() {
    assert_eq!(
        SqlParser::parse_expression("a = b").unwrap(),
        AstNode::Expression {
                left: Box::new(AstNode::Identifier { s: "a".to_string() }),
                op: Operation::Equal,
                right: Box::new(AstNode::Identifier { s: "b".to_string() })
            }
    );
}

#[test]
fn expression_equals_literal() {
    assert_eq!(
        SqlParser::parse_expression("a = 1").unwrap(),
        AstNode::Expression {
                left: Box::new(AstNode::Identifier { s: "a".to_string() }),
                op: Operation::Equal,
                right: Box::new(AstNode::IntegerLiteral { s: "1".to_string() })
            }
    );
}

#[test]
fn expression_not_equal() {
    assert_eq!(
        SqlParser::parse_expression("a != b").unwrap(),
        AstNode::Expression {
                left: Box::new(AstNode::Identifier { s: "a".to_string() }),
                op: Operation::NotEqual,
                right: Box::new(AstNode::Identifier { s: "b".to_string() })
            }
    );
}

#[test]
fn expression_greater_than() {
    assert_eq!(
        SqlParser::parse_expression("a > b").unwrap(),
        AstNode::Expression {
                left: Box::new(AstNode::Identifier { s: "a".to_string() }),
                op: Operation::GreaterThan,
                right: Box::new(AstNode::Identifier { s: "b".to_string() })
            }
    );
}

#[test]
fn expression_greater_or_equal_than() {
    assert_eq!(
        SqlParser::parse_expression("a >= b").unwrap(),
        AstNode::Expression {
                left: Box::new(AstNode::Identifier { s: "a".to_string() }),
                op: Operation::GreaterOrEqualThan,
                right: Box::new(AstNode::Identifier { s: "b".to_string() })
            }
    );
}

#[test]
fn expression_less_than() {
    assert_eq!(
        SqlParser::parse_expression("a < b").unwrap(),
        AstNode::Expression {
                left: Box::new(AstNode::Identifier { s: "a".to_string() }),
                op: Operation::LessThan,
                right: Box::new(AstNode::Identifier { s: "b".to_string() })
            }
    );
}

#[test]
fn expression_less_or_equal_than() {
    assert_eq!(
        SqlParser::parse_expression("a <= b").unwrap(),
        AstNode::Expression {
                left: Box::new(AstNode::Identifier { s: "a".to_string() }),
                op: Operation::LessOrEqualThan,
                right: Box::new(AstNode::Identifier { s: "b".to_string() })
            }
    );
}

#[test]
fn expression_qualified_identifier_equals() {
    assert_eq!(
        SqlParser::parse_expression("a.b = c").unwrap(),
        AstNode::Expression {
                left: Box::new(AstNode::QualifiedIdentifier {
                    s: vec![
                        AstNode::Identifier { s: "a".to_string() },
                        AstNode::Identifier { s: "b".to_string() },
                    ]
                }),
                op: Operation::Equal,
                right: Box::new(AstNode::Identifier { s: "c".to_string() })
            }
    );
}

#[test]
fn expression_case_expression() {
    assert_eq!(
        SqlParser::parse_expression("a = CASE WHEN 1 THEN 'one' END").unwrap(),
        AstNode::Expression {
                left: Box::new(AstNode::Identifier { s: "a".to_string() }),
                op: Operation::Equal,
                right: Box::new(AstNode::CaseExpression {
                    expr: None,
                    when_expr: vec![AstNode::WhenClause{
                        guard: Box::new(AstNode::IntegerLiteral { s: "1".to_string() }),
                        body: Box::new(AstNode::StringLiteral { s: "one".to_string() }),
                    }],
                    else_expr: None
                })
            }
    );
}

#[test]
fn expression_prec_climber_equality() {
    assert_eq!(
        SqlParser::parse_expression("a = b - c").unwrap(),
        AstNode::Expression {
                left: Box::new(AstNode::Identifier { s: "a".to_string() }),
                op: Operation::Equal,
                right: Box::new(AstNode::Expression {
                    left: Box::new(AstNode::Identifier { s: "b".to_string() }),
                    op: Operation::Subtract,
                    right: Box::new(AstNode::Identifier { s: "c".to_string() })
                })
            }
    );
}

#[test]
fn expression_is_null() {
    assert_eq!(
        SqlParser::parse_expression("a IS NULL").unwrap(),
        AstNode::IsNullExpression {
                expr: Box::new(AstNode::Identifier { s: "a".to_string() }),
                is_null: true,
            }
    );
}

#[test]
fn expression_is_not_null() {
    assert_eq!(
        SqlParser::parse_expression("a IS NOT NULL").unwrap(),
        AstNode::IsNullExpression {
                expr: Box::new(AstNode::Identifier { s: "a".to_string() }),
                is_null: false,
            }
    );
}

#[test]
fn expression_concat_operator() {
    assert_eq!(
        SqlParser::parse_expression("a || b").unwrap(),
        AstNode::Expression {
                left: Box::new(AstNode::Identifier { s: "a".to_string() }),
                op: Operation::Concat,
                right: Box::new(AstNode::Identifier { s: "b".to_string() })
            }
    );
}

#[test]
fn expression_and_operator() {
    assert_eq!(
        SqlParser::parse_expression("a AND b").unwrap(),
        AstNode::Expression {
                left: Box::new(AstNode::Identifier { s: "a".to_string() }),
                op: Operation::And,
                right: Box::new(AstNode::Identifier { s: "b".to_string() })
            }
    );
}

#[test]
fn expression_or_operator() {
    assert_eq!(
        SqlParser::parse_expression("a OR b").unwrap(),
        AstNode::Expression {
                left: Box::new(AstNode::Identifier { s: "a".to_string() }),
                op: Operation::Or,
                right: Box::new(AstNode::Identifier { s: "b".to_string() })
            }
    );
}

#[test]
fn expression_binary_concat() {
    assert_eq!(
        SqlParser::parse_expression("COALESCE(1) || b").unwrap(),
        AstNode::Expression {
                left: Box::new(AstNode::CoalesceFunction{
                    exprs: vec![AstNode::IntegerLiteral { s: "1".to_string() }]
                }),
                right: Box::new(AstNode::Identifier { s: "b".to_string() }),
                op: Operation::Concat
            }
    );
}

#[test]
fn expression_binary_concat_2() {
    assert_eq!(
        SqlParser::parse_expression("b || COALESCE(1)").unwrap(),
        AstNode::Expression {
                left: Box::new(AstNode::Identifier { s: "b".to_string() }),
                right: Box::new(AstNode::CoalesceFunction{
                    exprs: vec![AstNode::IntegerLiteral { s: "1".to_string() }]
                }),
                op: Operation::Concat
            }
    );
}

#[test]
fn expression_binary_concat_3() {
    assert_eq!(
        SqlParser::parse_expression("COALESCE(1) || COALESCE(2)").unwrap(),
        AstNode::Expression {
                left: Box::new(AstNode::CoalesceFunction{
                    exprs: vec![AstNode::IntegerLiteral { s: "1".to_string() }]
                }),
                right: Box::new(AstNode::CoalesceFunction{
                    exprs: vec![AstNode::IntegerLiteral { s: "2".to_string() }]
                }),
                op: Operation::Concat
            }
    );
}

#[test]
fn expression_binary_concat_4() {
    assert_eq!(
        SqlParser::parse_expression("COALESCE(1) || a || COALESCE(2)").unwrap(),
        AstNode::Expression {
                left: Box::new(AstNode::Expression {
                    left: Box::new(AstNode::CoalesceFunction{
                        exprs: vec![AstNode::IntegerLiteral { s: "1".to_string() }]
                    }),
                    op: Operation::Concat,
                    right: Box::new(AstNode::Identifier { s: "a".to_string() }),
                }),
                op: Operation::Concat,
                right: Box::new(AstNode::CoalesceFunction{
                    exprs: vec![AstNode::IntegerLiteral { s: "2".to_string() }]
                }),
            }
    );
}

#[test]
fn expression_parens() {
    assert_eq!(
        SqlParser::parse_expression("a + (b + c)").unwrap(),
        AstNode::Expression {
                left: Box::new(AstNode::Identifier { s: "a".to_string() }),
                op: Operation::Add,
                right: Box::new(AstNode::Expression {
                    left: Box::new(AstNode::Identifier { s: "b".to_string() }),
                    op: Operation::Add,
                    right: Box::new(AstNode::Identifier { s: "c".to_string() }),
                }),
            }
    );
}

#[test]
fn expression_parens_2() {
    assert_eq!(
        SqlParser::parse_expression("(a + b) + c").unwrap(),
        AstNode::Expression {
                left: Box::new(AstNode::Expression {
                    left: Box::new(AstNode::Identifier { s: "a".to_string() }),
                    op: Operation::Add,
                    right: Box::new(AstNode::Identifier { s: "b".to_string() }),
                }),
                op: Operation::Add,
                right: Box::new(AstNode::Identifier { s: "c".to_string() }),
            }
    );
}

#[test]
fn expression_multiply() {
    assert_eq!(
        SqlParser::parse_expression("a * b").unwrap(),
        AstNode::Expression {
                left: Box::new(AstNode::Identifier { s: "a".to_string() }),
                op: Operation::Multiply,
                right: Box::new(AstNode::Identifier { s: "b".to_string() }),
            }
    );
}

#[test]
fn expression_divide() {
    assert_eq!(
        SqlParser::parse_expression("a / b").unwrap(),
        AstNode::Expression {
                left: Box::new(AstNode::Identifier { s: "a".to_string() }),
                op: Operation::Divide,
                right: Box::new(AstNode::Identifier { s: "b".to_string() }),
            }
    );
}

#[test]
fn expression_subtract() {
    assert_eq!(
        SqlParser::parse_expression("a - b").unwrap(),
        AstNode::Expression {
                left: Box::new(AstNode::Identifier { s: "a".to_string() }),
                op: Operation::Subtract,
                right: Box::new(AstNode::Identifier { s: "b".to_string() }),
            }
    );
}

#[test]
fn expression_and_boolean_literal() {
    assert_eq!(
        SqlParser::parse_expression("TRUE AND a").unwrap(),
        AstNode::Expression {
                left: Box::new(AstNode::BooleanLiteral { s: "TRUE".to_string() }),
                op: Operation::And,
                right: Box::new(AstNode::Identifier { s: "a".to_string() }),
            }
    );
}

#[test]
fn expression_unary_expression() {
    assert_eq!(
        SqlParser::parse_expression("a IS NULL AND TRUE").unwrap(),
        AstNode::Expression {
                left: Box::new(AstNode::IsNullExpression {
                   expr: Box::new(AstNode::Identifier { s: "a".to_string() }),
                   is_null: true,
                }),
                op: Operation::And,
                right: Box::new(AstNode::BooleanLiteral { s: "TRUE".to_string() }),
            }
    );
}


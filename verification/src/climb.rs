//! The precedence climber: turns the flat operand/operator chain that the
//! expression grammar produces into a correctly nested binary tree.
//!
//! Binding strength, highest first: `*` `/`; `||`; `+` `-`; the comparison
//! operators; `AND`; `OR`.  All operators are left-associative.
//!
//! `climb_rest` is the specification of the algorithm; `climb` is the
//! executable climber, proved to build exactly the tree the specification
//! denotes.  The laws at the end of the module pin the precedence and
//! associativity behaviour down for arbitrary operands.

use vstd::prelude::*;

use crate::ast::AstNode;
use crate::ast::AstView;
use crate::ast::Operation;

verus! {

/// The binding strength of an operator; a larger number binds tighter.
pub open spec fn prec(op: Operation) -> int {
    match op {
        Operation::Multiply => 6,
        Operation::Divide => 6,
        Operation::Concat => 5,
        Operation::Add => 4,
        Operation::Subtract => 4,
        Operation::Equal => 3,
        Operation::NotEqual => 3,
        Operation::GreaterThan => 3,
        Operation::GreaterOrEqualThan => 3,
        Operation::LessThan => 3,
        Operation::LessOrEqualThan => 3,
        Operation::And => 2,
        Operation::Or => 1,
    }
}

/// Exec twin of `prec`.
pub fn prec_x(op: Operation) -> (r: u32)
    ensures
        r as int == prec(op),
{
    match op {
        Operation::Multiply => 6,
        Operation::Divide => 6,
        Operation::Concat => 5,
        Operation::Add => 4,
        Operation::Subtract => 4,
        Operation::Equal => 3,
        Operation::NotEqual => 3,
        Operation::GreaterThan => 3,
        Operation::GreaterOrEqualThan => 3,
        Operation::LessThan => 3,
        Operation::LessOrEqualThan => 3,
        Operation::And => 2,
        Operation::Or => 1,
    }
}

/// Precedence climbing from an accumulated left-hand side: as long as the
/// next operator binds at least as strongly as `min`, consume it together
/// with its right-hand operand — which first absorbs any tighter-binding
/// operators that follow it — and fold the pair into a new `Expression`
/// node.  Returns the finished tree and the operators that were not
/// consumed.
///
/// The inner climb can never return more operators than it was given; the
/// final branch merely makes that fact syntactically available to the
/// termination checker.
pub open spec fn climb_rest(lhs: AstView, rest: Seq<(Operation, AstView)>, min: int) -> (
    AstView,
    Seq<(Operation, AstView)>,
)
    decreases rest.len(), 1int,
{
    if rest.len() == 0 || prec(rest[0].0) < min {
        (lhs, rest)
    } else {
        let op = rest[0].0;
        let inner = climb_rest(rest[0].1, rest.drop_first(), prec(op) + 1);
        if inner.1.len() < rest.len() {
            climb_rest(
                AstView::Expression { left: Box::new(lhs), op, right: Box::new(inner.0) },
                inner.1,
                min,
            )
        } else {
            (lhs, rest)
        }
    }
}

/// The remainder that `climb_rest` returns never exceeds its input.
pub proof fn lemma_climb_rest_shrinks(lhs: AstView, rest: Seq<(Operation, AstView)>, min: int)
    ensures
        climb_rest(lhs, rest, min).1.len() <= rest.len(),
    decreases rest.len(), 1int,
{
    if !(rest.len() == 0 || prec(rest[0].0) < min) {
        let op = rest[0].0;
        lemma_climb_rest_shrinks(rest[0].1, rest.drop_first(), prec(op) + 1);
        let inner = climb_rest(rest[0].1, rest.drop_first(), prec(op) + 1);
        if inner.1.len() < rest.len() {
            lemma_climb_rest_shrinks(
                AstView::Expression { left: Box::new(lhs), op, right: Box::new(inner.0) },
                inner.1,
                min,
            );
        }
    }
}

/// At the outermost level every operator binds at least as strongly as 0,
/// so the climb consumes the whole chain.
pub proof fn lemma_climb_rest_consumes_all(lhs: AstView, rest: Seq<(Operation, AstView)>)
    ensures
        climb_rest(lhs, rest, 0).1.len() == 0,
    decreases rest.len(),
{
    if rest.len() > 0 {
        let op = rest[0].0;
        lemma_climb_rest_shrinks(rest[0].1, rest.drop_first(), prec(op) + 1);
        let inner = climb_rest(rest[0].1, rest.drop_first(), prec(op) + 1);
        assert(prec(op) >= 1);
        lemma_climb_rest_consumes_all(
            AstView::Expression { left: Box::new(lhs), op, right: Box::new(inner.0) },
            inner.1,
        );
    }
}

/// The tree denoted by a whole operand/operator chain.
pub open spec fn climbed(first: AstView, rest: Seq<(Operation, AstView)>) -> AstView {
    climb_rest(first, rest, 0).0
}

/// Exec twin of `climb_rest`: consumes the operator chain and returns the
/// finished tree together with the operators that were not consumed.
fn climb_rest_x(lhs: AstNode, rest: Vec<(Operation, AstNode)>, min: u32) -> (r: (
    AstNode,
    Vec<(Operation, AstNode)>,
))
    ensures
        r.0@ == climb_rest(lhs@, rest.deep_view(), min as int).0,
        r.1.deep_view() == climb_rest(lhs@, rest.deep_view(), min as int).1,
    decreases rest@.len(), 1int,
{
    let ghost grest = rest.deep_view();
    proof {
        assert(grest.len() == rest@.len());
    }
    if rest.len() == 0 {
        return (lhs, rest);
    }
    let next_prec = prec_x(rest[0].0);
    if next_prec < min {
        proof {
            assert(grest[0] == rest@[0].deep_view());
        }
        return (lhs, rest);
    }
    let mut rest = rest;
    let (op, r0) = rest.remove(0);
    proof {
        assert(grest[0] == (op@, r0@));
        assert(rest.deep_view() =~= grest.drop_first());
        lemma_climb_rest_shrinks(r0@, grest.drop_first(), prec(op) + 1);
    }
    let inner = climb_rest_x(r0, rest, next_prec + 1);
    let (rhs, rest2) = inner;
    proof {
        assert(rest2.deep_view().len() == rest2@.len());
        assert(rest2@.len() < grest.len());
    }
    climb_rest_x(
        AstNode::Expression { left: Box::new(lhs), op, right: Box::new(rhs) },
        rest2,
        min,
    )
}

/// Builds the expression tree of a flat operand/operator chain.
pub fn climb(first: AstNode, rest: Vec<(Operation, AstNode)>) -> (r: AstNode)
    ensures
        r@ == climbed(first@, rest.deep_view()),
{
    let (node, _) = climb_rest_x(first, rest, 0);
    node
}

/// Two operators in a row where the second binds no tighter than the first
/// group to the left: `a op1 b op2 c` is `(a op1 b) op2 c`.  With
/// `op1 == op2` this is left-associativity.
pub proof fn lemma_climb_left_assoc(a: AstView, b: AstView, c: AstView, op1: Operation, op2: Operation)
    requires
        prec(op2) <= prec(op1),
    ensures
        climbed(a, seq![(op1, b), (op2, c)]) == (AstView::Expression {
            left: Box::new(AstView::Expression { left: Box::new(a), op: op1, right: Box::new(b) }),
            op: op2,
            right: Box::new(c),
        }),
{
    let rest = seq![(op1, b), (op2, c)];
    assert(rest.drop_first() =~= seq![(op2, c)]);
    assert(seq![(op2, c)].drop_first() =~= Seq::<(Operation, AstView)>::empty());
    reveal_with_fuel(climb_rest, 5);
    assert(climb_rest(b, seq![(op2, c)], prec(op1) + 1) == (b, seq![(op2, c)]));
    assert(climb_rest(c, Seq::<(Operation, AstView)>::empty(), prec(op2) + 1) == (
        c,
        Seq::<(Operation, AstView)>::empty(),
    ));
}

/// Two operators in a row where the second binds tighter than the first
/// group to the right: `a op1 b op2 c` is `a op1 (b op2 c)`.
pub proof fn lemma_climb_right_assoc(a: AstView, b: AstView, c: AstView, op1: Operation, op2: Operation)
    requires
        prec(op2) > prec(op1),
    ensures
        climbed(a, seq![(op1, b), (op2, c)]) == (AstView::Expression {
            left: Box::new(a),
            op: op1,
            right: Box::new(
                AstView::Expression { left: Box::new(b), op: op2, right: Box::new(c) },
            ),
        }),
{
    let rest = seq![(op1, b), (op2, c)];
    assert(rest.drop_first() =~= seq![(op2, c)]);
    assert(seq![(op2, c)].drop_first() =~= Seq::<(Operation, AstView)>::empty());
    reveal_with_fuel(climb_rest, 5);
    assert(climb_rest(c, Seq::<(Operation, AstView)>::empty(), prec(op2) + 1) == (
        c,
        Seq::<(Operation, AstView)>::empty(),
    ));
    let bc = AstView::Expression { left: Box::new(b), op: op2, right: Box::new(c) };
    assert(climb_rest(b, seq![(op2, c)], prec(op1) + 1).0 == bc);
}

/// A comparison groups below subtraction: `a = b - c` is `a = (b - c)` and
/// never `(a = b) - c`.
pub proof fn lemma_comparison_below_subtraction(a: AstView, b: AstView, c: AstView)
    ensures
        climbed(a, seq![(Operation::Equal, b), (Operation::Subtract, c)]) == (AstView::Expression {
            left: Box::new(a),
            op: Operation::Equal,
            right: Box::new(
                AstView::Expression {
                    left: Box::new(b),
                    op: Operation::Subtract,
                    right: Box::new(c),
                },
            ),
        }),
{
    lemma_climb_right_assoc(a, b, c, Operation::Equal, Operation::Subtract);
}

/// Subtraction is left-associative: `a - b - c` is `(a - b) - c`.
pub proof fn lemma_subtraction_left_associative(a: AstView, b: AstView, c: AstView)
    ensures
        climbed(a, seq![(Operation::Subtract, b), (Operation::Subtract, c)])
            == (AstView::Expression {
            left: Box::new(
                AstView::Expression {
                    left: Box::new(a),
                    op: Operation::Subtract,
                    right: Box::new(b),
                },
            ),
            op: Operation::Subtract,
            right: Box::new(c),
        }),
{
    lemma_climb_left_assoc(a, b, c, Operation::Subtract, Operation::Subtract);
}

/// Concatenation binds tighter than comparison: `a || b = c` is
/// `(a || b) = c`.
pub proof fn lemma_concat_above_comparison(a: AstView, b: AstView, c: AstView)
    ensures
        climbed(a, seq![(Operation::Concat, b), (Operation::Equal, c)]) == (AstView::Expression {
            left: Box::new(
                AstView::Expression { left: Box::new(a), op: Operation::Concat, right: Box::new(b) },
            ),
            op: Operation::Equal,
            right: Box::new(c),
        }),
{
    lemma_climb_left_assoc(a, b, c, Operation::Concat, Operation::Equal);
}

/// Concatenation sits between the two algebraic families: it binds tighter
/// than addition (`a || b + c` is `(a || b) + c`) and looser than
/// multiplication (`a || b * c` is `a || (b * c)`).
pub proof fn lemma_concat_between_families(a: AstView, b: AstView, c: AstView)
    ensures
        climbed(a, seq![(Operation::Concat, b), (Operation::Add, c)]) == (AstView::Expression {
            left: Box::new(
                AstView::Expression {
                    left: Box::new(a),
                    op: Operation::Concat,
                    right: Box::new(b),
                },
            ),
            op: Operation::Add,
            right: Box::new(c),
        }),
        climbed(a, seq![(Operation::Concat, b), (Operation::Multiply, c)]) == (AstView::Expression {
            left: Box::new(a),
            op: Operation::Concat,
            right: Box::new(
                AstView::Expression {
                    left: Box::new(b),
                    op: Operation::Multiply,
                    right: Box::new(c),
                },
            ),
        }),
{
    lemma_climb_left_assoc(a, b, c, Operation::Concat, Operation::Add);
    lemma_climb_right_assoc(a, b, c, Operation::Concat, Operation::Multiply);
}

} // verus!

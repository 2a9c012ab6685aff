//! The executable parser: a recursive-descent reading of the grammar in
//! `grammar`, one function per production, each proved to return exactly
//! what its specification function denotes.

use vstd::prelude::*;

use crate::ast::AstNode;
use crate::ast::view_node;
use crate::ast::Interval;
use crate::ast::Operation;
use crate::ast::SelectMode;
use crate::ast::Sign;
use crate::chars::str_upper_eq;
use crate::climb::climb;
use crate::grammar;
use crate::lexer::Token;
use crate::lexer::kw;
use crate::lexer::reserved_word;
use crate::lexer::tokenize;

verus! {

broadcast use
    vstd::string::group_string_axioms,
    crate::ast::lemma_deep_view_nodes,
    crate::ast::lemma_view_nodes_len,
    crate::ast::lemma_view_nodes_index,
    crate::ast::lemma_view_opt_unfold,
;

/// A parse failure: a short description and, for lexical failures, the
/// character offset at which no token starts.
#[derive(Debug)]
pub struct ParseError {
    /// The character offset of the failure where available, 0 otherwise.
    pub pos: usize,
    /// A short human-readable description.
    pub msg: String,
}

/// Exec twin of `grammar::period_of`.
fn period_of_x(w: &String) -> (r: Option<Interval>)
    ensures
        r == grammar::period_of(w@),
{
    if str_upper_eq(w.as_str(), "YEAR") {
        Option::Some(Interval::Year)
    } else if str_upper_eq(w.as_str(), "MONTH") {
        Option::Some(Interval::Month)
    } else if str_upper_eq(w.as_str(), "DAY") {
        Option::Some(Interval::Day)
    } else if str_upper_eq(w.as_str(), "HOUR") {
        Option::Some(Interval::Hour)
    } else if str_upper_eq(w.as_str(), "MINUTE") {
        Option::Some(Interval::Minute)
    } else if str_upper_eq(w.as_str(), "SECOND") {
        Option::Some(Interval::Second)
    } else {
        Option::None
    }
}

/// Exec twin of `grammar::conversion_ok`.
fn conversion_ok_x(period: Interval, conv: Interval) -> (r: bool)
    ensures
        r == grammar::conversion_ok(period, conv),
{
    let ym_p = matches!(period, Interval::Year | Interval::Month);
    let ym_c = matches!(conv, Interval::Year | Interval::Month);
    if ym_p {
        ym_c && !matches!((period, conv), (Interval::Year, Interval::Year) | (Interval::Month, Interval::Month))
    } else {
        let rp: u32 = match period {
            Interval::Day => 0,
            Interval::Hour => 1,
            Interval::Minute => 2,
            Interval::Second => 3,
            _ => 0,
        };
        let rc: u32 = match conv {
            Interval::Day => 0,
            Interval::Hour => 1,
            Interval::Minute => 2,
            Interval::Second => 3,
            _ => 0,
        };
        !ym_c && rc >= rp
    }
}

/// Exec twin of `grammar::binop_of`.
fn binop_of_x(t: &Token) -> (r: Option<Operation>)
    ensures
        r == grammar::binop_of(t@),
{
    match t {
        Token::Star => Option::Some(Operation::Multiply),
        Token::Slash => Option::Some(Operation::Divide),
        Token::Plus => Option::Some(Operation::Add),
        Token::Minus => Option::Some(Operation::Subtract),
        Token::Concat => Option::Some(Operation::Concat),
        Token::EqOp => Option::Some(Operation::Equal),
        Token::NeOp => Option::Some(Operation::NotEqual),
        Token::GtOp => Option::Some(Operation::GreaterThan),
        Token::GeOp => Option::Some(Operation::GreaterOrEqualThan),
        Token::LtOp => Option::Some(Operation::LessThan),
        Token::LeOp => Option::Some(Operation::LessOrEqualThan),
        Token::Word { s } => if str_upper_eq(s.as_str(), "AND") {
            Option::Some(Operation::And)
        } else if str_upper_eq(s.as_str(), "OR") {
            Option::Some(Operation::Or)
        } else {
            Option::None
        },
        _ => Option::None,
    }
}

/// Exec twin of `grammar::qual_tail`.
fn qual_tail_x(t: &Vec<Token>, i: usize) -> (r: (Vec<AstNode>, usize))
    requires
        i <= t@.len(),
    ensures
        grammar::qual_tail(t.deep_view(), i as int) == (r.0.deep_view(), r.1 as int),
        i <= r.1 <= t@.len(),
    decreases t@.len() - i,
{
    proof {
        assert(t.deep_view().len() == t@.len());
    }
    if i < t.len() && i + 1 < t.len() && matches!(&t[i], Token::Dot) {
        match &t[i + 1] {
            Token::Word { s: w } => {
                let node = AstNode::Identifier { s: w.clone() };
                let (mut rest, j) = qual_tail_x(t, i + 2);
                rest.insert(0, node);
                proof {
                    let g = grammar::qual_tail(t.deep_view(), (i + 2) as int);
                    assert(rest.deep_view() =~= seq![
                        crate::ast::AstView::Identifier { s: w@ },
                    ] + g.0);
                }
                (rest, j)
            },
            _ => (Vec::new(), i),
        }
    } else {
        let v: Vec<AstNode> = Vec::new();
        proof {
            assert(v.deep_view() =~= Seq::<crate::ast::AstView>::empty());
        }
        (v, i)
    }
}

/// Exec twin of `grammar::qualified_identifier`.
fn qualified_identifier_x(t: &Vec<Token>, i: usize) -> (r: Option<(AstNode, usize)>)
    requires
        i <= t@.len(),
    ensures
        ({
            let g = grammar::qualified_identifier(t.deep_view(), i as int);
            match r {
                Option::Some((n, j)) => g == Option::Some((n@, j as int)) && i < j <= t@.len(),
                Option::None => g is None,
            }
        }),
{
    proof {
        assert(t.deep_view().len() == t@.len());
    }
    if i < t.len() {
        match &t[i] {
            Token::Word { s: w } => {
                let head = AstNode::Identifier { s: w.clone() };
                let (mut rest, j) = qual_tail_x(t, i + 1);
                if rest.len() == 0 {
                    Option::Some((head, i + 1))
                } else {
                    rest.insert(0, head);
                    proof {
                        let g = grammar::qual_tail(t.deep_view(), (i + 1) as int);
                        assert(rest.deep_view() =~= seq![
                            crate::ast::AstView::Identifier { s: w@ },
                        ] + g.0);
                    }
                    Option::Some((AstNode::QualifiedIdentifier { s: rest }, j))
                }
            },
            _ => Option::None,
        }
    } else {
        Option::None
    }
}

/// Exec twin of `grammar::literal_unsigned`.
fn literal_unsigned_x(t: &Vec<Token>, i: usize) -> (r: Option<(AstNode, usize)>)
    requires
        i <= t@.len(),
    ensures
        ({
            let g = grammar::literal_unsigned(t.deep_view(), i as int);
            match r {
                Option::Some((n, j)) => g == Option::Some((n@, j as int)) && i < j <= t@.len(),
                Option::None => g is None,
            }
        }),
{
    proof {
        assert(t.deep_view().len() == t@.len());
    }
    if i < t.len() {
        match &t[i] {
            Token::Int { s } => Option::Some((AstNode::IntegerLiteral { s: s.clone() }, i + 1)),
            Token::Dec { s } => Option::Some((AstNode::DecimalLiteral { s: s.clone() }, i + 1)),
            Token::Float { s } => Option::Some((AstNode::FloatLiteral { s: s.clone() }, i + 1)),
            Token::Str { s } => Option::Some((AstNode::StringLiteral { s: s.clone() }, i + 1)),
            Token::Word { s } => if str_upper_eq(s.as_str(), "TRUE") || str_upper_eq(
                s.as_str(),
                "FALSE",
            ) {
                Option::Some((AstNode::BooleanLiteral { s: s.clone() }, i + 1))
            } else {
                Option::None
            },
            _ => Option::None,
        }
    } else {
        Option::None
    }
}

/// Prepends a sign character to the text of a numeric literal.
fn signed_text(plus: bool, num: &String) -> (r: String)
    ensures
        plus ==> r@ == seq!['+'] + num@,
        !plus ==> r@ == seq!['-'] + num@,
{
    proof {
        reveal_strlit("+");
        reveal_strlit("-");
        assert("+"@ =~= seq!['+']);
        assert("-"@ =~= seq!['-']);
    }
    let mut out = if plus {
        String::from_str("+")
    } else {
        String::from_str("-")
    };
    out.append(num.as_str());
    out
}

/// Exec twin of `grammar::literal_value`.
fn literal_value_x(t: &Vec<Token>, i: usize) -> (r: Option<(AstNode, usize)>)
    requires
        i <= t@.len(),
    ensures
        ({
            let g = grammar::literal_value(t.deep_view(), i as int);
            match r {
                Option::Some((n, j)) => g == Option::Some((n@, j as int)) && i < j <= t@.len(),
                Option::None => g is None,
            }
        }),
{
    proof {
        assert(t.deep_view().len() == t@.len());
    }
    if i < t.len() && i + 1 < t.len() && matches!(&t[i], Token::Plus | Token::Minus) {
        let plus = matches!(&t[i], Token::Plus);
        match &t[i + 1] {
            Token::Int { s } => Option::Some(
                (AstNode::IntegerLiteral { s: signed_text(plus, s) }, i + 2),
            ),
            Token::Dec { s } => Option::Some(
                (AstNode::DecimalLiteral { s: signed_text(plus, s) }, i + 2),
            ),
            Token::Float { s } => Option::Some(
                (AstNode::FloatLiteral { s: signed_text(plus, s) }, i + 2),
            ),
            _ => literal_unsigned_x(t, i),
        }
    } else {
        literal_unsigned_x(t, i)
    }
}

/// Exec twin of `grammar::interval_precision`.
fn interval_precision_x(t: &Vec<Token>, i: usize, period: Interval) -> (r: Option<(
    Vec<AstNode>,
    usize,
)>)
    requires
        i <= t@.len(),
    ensures
        ({
            let g = grammar::interval_precision(t.deep_view(), i as int, period);
            match r {
                Option::Some((v, j)) => g == Option::Some((v.deep_view(), j as int)) && i <= j
                    <= t@.len(),
                Option::None => g is None,
            }
        }),
{
    proof {
        assert(t.deep_view().len() == t@.len());
    }
    if i < t.len() && matches!(&t[i], Token::LParen) {
        if i + 1 < t.len() {
            match &t[i + 1] {
                Token::Int { s: p1 } => {
                    if i + 2 < t.len() && matches!(&t[i + 2], Token::RParen) {
                        let mut v: Vec<AstNode> = Vec::new();
                        v.push(AstNode::IntegerLiteral { s: p1.clone() });
                        proof {
                            assert(v.deep_view() =~= seq![
                                crate::ast::AstView::IntegerLiteral { s: p1@ },
                            ]);
                        }
                        Option::Some((v, i + 3))
                    } else if i + 2 < t.len() && i + 3 < t.len() && i + 4 < t.len() && matches!(
                        &t[i + 2],
                        Token::Comma,
                    ) && matches!(&t[i + 4], Token::RParen) && matches!(period, Interval::Second) {
                        match &t[i + 3] {
                            Token::Int { s: p2 } => {
                                let mut v: Vec<AstNode> = Vec::new();
                                v.push(AstNode::IntegerLiteral { s: p1.clone() });
                                v.push(AstNode::IntegerLiteral { s: p2.clone() });
                                proof {
                                    assert(v.deep_view() =~= seq![
                                        crate::ast::AstView::IntegerLiteral { s: p1@ },
                                        crate::ast::AstView::IntegerLiteral { s: p2@ },
                                    ]);
                                }
                                Option::Some((v, i + 5))
                            },
                            _ => Option::None,
                        }
                    } else {
                        Option::None
                    }
                },
                _ => Option::None,
            }
        } else {
            Option::None
        }
    } else {
        let v: Vec<AstNode> = Vec::new();
        proof {
            assert(v.deep_view() =~= Seq::<crate::ast::AstView>::empty());
        }
        Option::Some((v, i))
    }
}

/// Exec twin of `grammar::conversion_precision`.
fn conversion_precision_x(t: &Vec<Token>, i: usize, conv: Interval) -> (r: Option<(
    Option<Box<AstNode>>,
    usize,
)>)
    requires
        i <= t@.len(),
    ensures
        ({
            let g = grammar::conversion_precision(t.deep_view(), i as int, conv);
            match r {
                Option::Some((v, j)) => g == Option::Some(
                    (crate::ast::view_opt(v), j as int),
                ) && i <= j <= t@.len(),
                Option::None => g is None,
            }
        }),
{
    proof {
        assert(t.deep_view().len() == t@.len());
    }
    if matches!(conv, Interval::Second) && i < t.len() && i + 1 < t.len() && i + 2 < t.len()
        && matches!(&t[i], Token::LParen) && matches!(&t[i + 2], Token::RParen) {
        match &t[i + 1] {
            Token::Int { s: q } => Option::Some(
                (
                    Option::Some(Box::new(AstNode::IntegerLiteral { s: q.clone() })),
                    i + 3,
                ),
            ),
            _ => Option::None,
        }
    } else {
        Option::Some((Option::None, i))
    }
}

/// Exec twin of `grammar::interval_literal`.
#[verifier::rlimit(60)]
fn interval_literal_x(t: &Vec<Token>, i: usize) -> (r: Option<(AstNode, usize)>)
    requires
        i <= t@.len(),
    ensures
        ({
            let g = grammar::interval_literal(t.deep_view(), i as int);
            match r {
                Option::Some((n, j)) => g == Option::Some((n@, j as int)) && i < j <= t@.len(),
                Option::None => g is None,
            }
        }),
{
    proof {
        assert(t.deep_view().len() == t@.len());
    }
    if i < t.len() && i + 1 < t.len() && i + 2 < t.len() && kw(&t[i], "INTERVAL") {
        let magnitude_text = match &t[i + 1] {
            Token::Str { s } => Option::Some(s.clone()),
            _ => Option::None,
        };
        match magnitude_text {
            Option::None => Option::None,
            Option::Some(m) => {
                let period = match &t[i + 2] {
                    Token::Word { s: pw } => period_of_x(pw),
                    _ => Option::None,
                };
                match period {
                    Option::None => Option::None,
                    Option::Some(period) => {
                        let magnitude = AstNode::StringLiteral { s: m };
                        match interval_precision_x(t, i + 3, period) {
                            Option::None => Option::None,
                            Option::Some((precision, k)) => {
                                if k < t.len() && kw(&t[k], "TO") {
                                    if k + 1 < t.len() {
                                        let conv = match &t[k + 1] {
                                            Token::Word { s: cw } => period_of_x(cw),
                                            _ => Option::None,
                                        };
                                        match conv {
                                            Option::None => Option::None,
                                            Option::Some(conv) => if conversion_ok_x(
                                                period,
                                                conv,
                                            ) {
                                                match conversion_precision_x(t, k + 2, conv) {
                                                    Option::None => Option::None,
                                                    Option::Some((cp, m2)) => {
                                                        proof {
                                                            assert(view_node(magnitude) == (
                                                            crate::ast::AstView::StringLiteral {
                                                                s: m@,
                                                            }));
                                                        }
                                                        let node =
                                                            AstNode::IntervalLiteral {
                                                            interval: Box::new(magnitude),
                                                            period,
                                                            precision,
                                                            convert_to: Option::Some(conv),
                                                            convert_precision: cp,
                                                        };
                                                        proof {
                                                            assert(grammar::interval_literal(
                                                                t.deep_view(),
                                                                i as int,
                                                            ) == Option::Some(
                                                                (node@, m2 as int),
                                                            ));
                                                        }
                                                        Option::Some((node, m2))
                                                    },
                                                }
                                            } else {
                                                Option::None
                                            },
                                        }
                                    } else {
                                        Option::None
                                    }
                                } else {
                                    proof {
                                        assert(view_node(magnitude) == (
                                        crate::ast::AstView::StringLiteral { s: m@ }));
                                    }
                                    let node = AstNode::IntervalLiteral {
                                        interval: Box::new(magnitude),
                                        period,
                                        precision,
                                        convert_to: Option::None,
                                        convert_precision: Option::None,
                                    };
                                    proof {
                                        assert(crate::ast::view_opt(Option::None) is None);
                                    }
                                    Option::Some((node, k))
                                }
                            },
                        }
                    },
                }
            },
        }
    } else {
        Option::None
    }
}

/// Exec twin of `grammar::alias_opt`.
fn alias_opt_x(t: &Vec<Token>, i: usize) -> (r: (Option<String>, usize))
    requires
        i <= t@.len(),
    ensures
        ({
            let g = grammar::alias_opt(t.deep_view(), i as int);
            match r.0 {
                Option::Some(a) => g == (Option::Some(a@), r.1 as int),
                Option::None => g == (Option::None::<Seq<char>>, r.1 as int),
            }
        }),
        i <= r.1 <= t@.len(),
{
    proof {
        assert(t.deep_view().len() == t@.len());
    }
    if i < t.len() && i + 1 < t.len() && kw(&t[i], "AS") {
        match &t[i + 1] {
            Token::Word { s: a } => (Option::Some(a.clone()), i + 2),
            _ => (Option::None, i),
        }
    } else if i < t.len() {
        match &t[i] {
            Token::Word { s: a } => if !reserved_word(a.as_str()) {
                (Option::Some(a.clone()), i + 1)
            } else {
                (Option::None, i)
            },
            _ => (Option::None, i),
        }
    } else {
        (Option::None, i)
    }
}

/// Exec twin of `grammar::join_type`.
fn join_type_x(t: &Vec<Token>, i: usize) -> (r: Option<(AstNode, usize)>)
    requires
        i <= t@.len(),
    ensures
        ({
            let g = grammar::join_type(t.deep_view(), i as int);
            match r {
                Option::Some((n, j)) => g == Option::Some((n@, j as int)) && i < j <= t@.len(),
                Option::None => g is None,
            }
        }),
{
    proof {
        assert(t.deep_view().len() == t@.len());
    }
    if i < t.len() && kw(&t[i], "JOIN") {
        Option::Some((AstNode::InnerJoin, i + 1))
    } else if i < t.len() && i + 1 < t.len() && kw(&t[i], "INNER") && kw(&t[i + 1], "JOIN") {
        Option::Some((AstNode::InnerJoin, i + 2))
    } else if i < t.len() && kw(&t[i], "LEFT") {
        outer_join_tail_x(t, i + 1, AstNode::LeftOuterJoin)
    } else if i < t.len() && kw(&t[i], "RIGHT") {
        outer_join_tail_x(t, i + 1, AstNode::RightOuterJoin)
    } else if i < t.len() && kw(&t[i], "FULL") {
        outer_join_tail_x(t, i + 1, AstNode::FullOuterJoin)
    } else {
        Option::None
    }
}

/// Exec twin of `grammar::outer_join_tail`.
fn outer_join_tail_x(t: &Vec<Token>, i: usize, node: AstNode) -> (r: Option<(AstNode, usize)>)
    requires
        i <= t@.len(),
    ensures
        ({
            let g = grammar::outer_join_tail(t.deep_view(), i as int, node@);
            match r {
                Option::Some((n, j)) => g == Option::Some((n@, j as int)) && i < j <= t@.len(),
                Option::None => g is None,
            }
        }),
{
    proof {
        assert(t.deep_view().len() == t@.len());
    }
    if i < t.len() && i + 1 < t.len() && kw(&t[i], "OUTER") && kw(&t[i + 1], "JOIN") {
        Option::Some((node, i + 2))
    } else if i < t.len() && kw(&t[i], "JOIN") {
        Option::Some((node, i + 1))
    } else {
        Option::None
    }
}

/// Exec twin of `grammar::ident_list`.
fn ident_list_x(t: &Vec<Token>, i: usize) -> (r: Option<(Vec<AstNode>, usize)>)
    requires
        i <= t@.len(),
    ensures
        ({
            let g = grammar::ident_list(t.deep_view(), i as int);
            match r {
                Option::Some((v, j)) => g == Option::Some((v.deep_view(), j as int)) && i < j
                    <= t@.len(),
                Option::None => g is None,
            }
        }),
    decreases t@.len() - i,
{
    proof {
        assert(t.deep_view().len() == t@.len());
    }
    if i < t.len() {
        match &t[i] {
            Token::Word { s: w } => {
                let node = AstNode::Identifier { s: w.clone() };
                if i + 1 < t.len() && matches!(&t[i + 1], Token::Comma) {
                    match ident_list_x(t, i + 2) {
                        Option::None => Option::None,
                        Option::Some((mut ids, j)) => {
                            let ghost tail_view = ids.deep_view();
                            ids.insert(0, node);
                            proof {
                                assert(ids.deep_view() =~= seq![
                                    crate::ast::AstView::Identifier { s: w@ },
                                ] + tail_view);
                            }
                            Option::Some((ids, j))
                        },
                    }
                } else {
                    let mut v: Vec<AstNode> = Vec::new();
                    v.push(node);
                    proof {
                        assert(v.deep_view() =~= seq![crate::ast::AstView::Identifier { s: w@ }]);
                    }
                    Option::Some((v, i + 1))
                }
            },
            _ => Option::None,
        }
    } else {
        Option::None
    }
}

} // verus!

verus! {

/// Moves the two elements out of a two-element argument list.
fn args2(es: Vec<AstNode>) -> (r: (AstNode, AstNode))
    requires
        es@.len() == 2,
    ensures
        r.0@ == es.deep_view()[0],
        r.1@ == es.deep_view()[1],
{
    let mut es = es;
    let b = es.pop().unwrap();
    let a = es.pop().unwrap();
    (a, b)
}

/// Moves the three elements out of a three-element argument list.
fn args3(es: Vec<AstNode>) -> (r: (AstNode, AstNode, AstNode))
    requires
        es@.len() == 3,
    ensures
        r.0@ == es.deep_view()[0],
        r.1@ == es.deep_view()[1],
        r.2@ == es.deep_view()[2],
{
    let mut es = es;
    let c = es.pop().unwrap();
    let b = es.pop().unwrap();
    let a = es.pop().unwrap();
    (a, b, c)
}

/// Moves the single element out of a one-element argument list.
fn args1(es: Vec<AstNode>) -> (r: AstNode)
    requires
        es@.len() == 1,
    ensures
        r@ == es.deep_view()[0],
{
    let mut es = es;
    es.pop().unwrap()
}

/// Exec twin of `grammar::kw_call`.
fn kw_call_x(t: &Vec<Token>, i: usize, w: &str) -> (r: bool)
    requires
        i <= t@.len(),
    ensures
        r == grammar::kw_call(t.deep_view(), i as int, w@),
{
    proof {
        assert(t.deep_view().len() == t@.len());
    }
    i < t.len() && i + 1 < t.len() && kw(&t[i], w) && matches!(&t[i + 1], Token::LParen)
}

/// Exec twin of `grammar::expr_list`.
fn expr_list_x(t: &Vec<Token>, i: usize) -> (r: Option<(Vec<AstNode>, usize)>)
    requires
        i <= t@.len(),
    ensures
        ({
            let g = grammar::expr_list(t.deep_view(), i as int);
            match r {
                Option::Some((v, j)) => g == Option::Some((v.deep_view(), j as int)) && i < j
                    <= t@.len(),
                Option::None => g is None,
            }
        }),
    decreases t@.len() - i, 4int,
{
    proof {
        assert(t.deep_view().len() == t@.len());
    }
    match expression_x(t, i) {
        Option::None => Option::None,
        Option::Some((e, j)) => {
            if j < t.len() && matches!(&t[j], Token::Comma) {
                match expr_list_x(t, j + 1) {
                    Option::None => Option::None,
                    Option::Some((mut es, k)) => {
                        let ghost tail = es.deep_view();
                        es.insert(0, e);
                        proof {
                            assert(es.deep_view() =~= seq![e@] + tail);
                        }
                        Option::Some((es, k))
                    },
                }
            } else {
                let mut v: Vec<AstNode> = Vec::new();
                v.push(e);
                proof {
                    assert(v.deep_view() =~= seq![e@]);
                }
                Option::Some((v, j))
            }
        },
    }
}

/// Exec twin of `grammar::paren_expr_list`.
fn paren_expr_list_x(t: &Vec<Token>, i: usize) -> (r: Option<(Vec<AstNode>, usize)>)
    requires
        i <= t@.len(),
    ensures
        ({
            let g = grammar::paren_expr_list(t.deep_view(), i as int);
            match r {
                Option::Some((v, j)) => g == Option::Some((v.deep_view(), j as int)) && i < j
                    <= t@.len(),
                Option::None => g is None,
            }
        }),
    decreases t@.len() - i, 0int,
{
    proof {
        assert(t.deep_view().len() == t@.len());
    }
    if i < t.len() && matches!(&t[i], Token::LParen) {
        match expr_list_x(t, i + 1) {
            Option::None => Option::None,
            Option::Some((es, j)) => if j < t.len() && matches!(&t[j], Token::RParen) {
                Option::Some((es, j + 1))
            } else {
                Option::None
            },
        }
    } else {
        Option::None
    }
}

/// Exec twin of `grammar::aggregate_mode`.
fn aggregate_mode_x(t: &Vec<Token>, i: usize) -> (r: (SelectMode, usize))
    requires
        i <= t@.len(),
    ensures
        grammar::aggregate_mode(t.deep_view(), i as int) == (r.0, r.1 as int),
        i <= r.1 <= t@.len(),
{
    proof {
        assert(t.deep_view().len() == t@.len());
    }
    if i < t.len() && kw(&t[i], "ALL") {
        (SelectMode::All, i + 1)
    } else if i < t.len() && kw(&t[i], "DISTINCT") {
        (SelectMode::Distinct, i + 1)
    } else {
        (SelectMode::All, i)
    }
}

/// Exec twin of `grammar::aggregate_body`.
fn aggregate_body_x(t: &Vec<Token>, i: usize) -> (r: Option<((SelectMode, AstNode), usize)>)
    requires
        i <= t@.len(),
    ensures
        ({
            let g = grammar::aggregate_body(t.deep_view(), i as int);
            match r {
                Option::Some(((m, e), j)) => g == Option::Some(((m, e@), j as int)) && i < j
                    <= t@.len(),
                Option::None => g is None,
            }
        }),
    decreases t@.len() - i, 0int,
{
    proof {
        assert(t.deep_view().len() == t@.len());
    }
    if i < t.len() && matches!(&t[i], Token::LParen) {
        let (m, mi) = aggregate_mode_x(t, i + 1);
        match expression_x(t, mi) {
            Option::None => Option::None,
            Option::Some((e, j)) => if j < t.len() && matches!(&t[j], Token::RParen) {
                Option::Some(((m, e), j + 1))
            } else {
                Option::None
            },
        }
    } else {
        Option::None
    }
}

/// Exec twin of `grammar::count_body`.
#[verifier::rlimit(100)]
fn count_body_x(t: &Vec<Token>, i: usize) -> (r: Option<((SelectMode, Vec<AstNode>), usize)>)
    requires
        i <= t@.len(),
    ensures
        ({
            let g = grammar::count_body(t.deep_view(), i as int);
            match r {
                Option::Some(((m, v), j)) => g == Option::Some(
                    ((m, v.deep_view()), j as int),
                ) && i < j <= t@.len(),
                Option::None => g is None,
            }
        }),
    decreases t@.len() - i, 0int,
{
    proof {
        assert(t.deep_view().len() == t@.len());
    }
    if i < t.len() && matches!(&t[i], Token::LParen) {
        if i + 1 < t.len() && i + 2 < t.len() && matches!(&t[i + 1], Token::Star) && matches!(
            &t[i + 2],
            Token::RParen,
        ) {
            let mut v: Vec<AstNode> = Vec::new();
            v.push(AstNode::AllColumns);
            proof {
                assert(v.deep_view() =~= seq![crate::ast::AstView::AllColumns]);
            }
            Option::Some(((SelectMode::All, v), i + 3))
        } else {
            let (m, mi) = aggregate_mode_x(t, i + 1);
            if mi < t.len() && matches!(&t[mi], Token::LParen) {
                match paren_expr_list_x(t, mi) {
                    Option::None => Option::None,
                    Option::Some((es, j)) => if j < t.len() && matches!(&t[j], Token::RParen) {
                        Option::Some(((m, es), j + 1))
                    } else {
                        Option::None
                    },
                }
            } else {
                match expression_x(t, mi) {
                    Option::None => Option::None,
                    Option::Some((e, j)) => if j < t.len() && matches!(&t[j], Token::RParen) {
                        let mut v: Vec<AstNode> = Vec::new();
                        v.push(e);
                        proof {
                            assert(v.deep_view() =~= seq![e@]);
                        }
                        Option::Some(((m, v), j + 1))
                    } else {
                        Option::None
                    },
                }
            }
        }
    } else {
        Option::None
    }
}

/// Exec twin of `grammar::when_chain`.
fn when_chain_x(t: &Vec<Token>, i: usize) -> (r: Option<(Vec<AstNode>, usize)>)
    requires
        i <= t@.len(),
    ensures
        ({
            let g = grammar::when_chain(t.deep_view(), i as int);
            match r {
                Option::Some((v, j)) => g == Option::Some((v.deep_view(), j as int)) && i < j
                    <= t@.len(),
                Option::None => g is None,
            }
        }),
    decreases t@.len() - i, 0int,
{
    proof {
        assert(t.deep_view().len() == t@.len());
    }
    if i < t.len() && kw(&t[i], "WHEN") {
        match expression_x(t, i + 1) {
            Option::None => Option::None,
            Option::Some((g1, j)) => if j < t.len() && kw(&t[j], "THEN") {
                match expression_x(t, j + 1) {
                    Option::None => Option::None,
                    Option::Some((b, k)) => {
                        let ghost gv = g1@;
                        let ghost bv = b@;
                        let clause = AstNode::WhenClause {
                            guard: Box::new(g1),
                            body: Box::new(b),
                        };
                        proof {
                            assert(view_node(clause) == (crate::ast::AstView::WhenClause {
                                guard: Box::new(gv),
                                body: Box::new(bv),
                            }));
                        }
                        if k < t.len() && kw(&t[k], "WHEN") {
                            match when_chain_x(t, k) {
                                Option::None => Option::None,
                                Option::Some((mut cs, m)) => {
                                    let ghost tail = cs.deep_view();
                                    cs.insert(0, clause);
                                    proof {
                                        assert(cs.deep_view() =~= seq![view_node(clause)] + tail);
                                    }
                                    Option::Some((cs, m))
                                },
                            }
                        } else {
                            let mut v: Vec<AstNode> = Vec::new();
                            v.push(clause);
                            proof {
                                assert(v.deep_view() =~= seq![view_node(clause)]);
                            }
                            Option::Some((v, k))
                        }
                    },
                }
            } else {
                Option::None
            },
        }
    } else {
        Option::None
    }
}

/// Exec twin of `grammar::case_expression`.
#[verifier::rlimit(100)]
fn case_expression_x(t: &Vec<Token>, i: usize) -> (r: Option<(AstNode, usize)>)
    requires
        i <= t@.len(),
    ensures
        ({
            let g = grammar::case_expression(t.deep_view(), i as int);
            match r {
                Option::Some((n, j)) => g == Option::Some((n@, j as int)) && i < j <= t@.len(),
                Option::None => g is None,
            }
        }),
    decreases t@.len() - i, 0int,
{
    proof {
        assert(t.deep_view().len() == t@.len());
    }
    if i < t.len() && kw(&t[i], "CASE") {
        let scrut: Option<(Option<Box<AstNode>>, usize)> = if i + 1 < t.len() && !kw(
            &t[i + 1],
            "WHEN",
        ) {
            match expression_x(t, i + 1) {
                Option::None => Option::None,
                Option::Some((e, j)) => Option::Some((Option::Some(Box::new(e)), j)),
            }
        } else {
            Option::Some((Option::None, i + 1))
        };
        match scrut {
            Option::None => Option::None,
            Option::Some((scrutinee, j)) => {
                proof {
                    crate::ast::lemma_view_opt_unfold(scrutinee);
                }
                match when_chain_x(t, j) {
                    Option::None => Option::None,
                    Option::Some((whens, k)) => {
                        let els: Option<(Option<Box<AstNode>>, usize)> = if k < t.len() && kw(
                            &t[k],
                            "ELSE",
                        ) {
                            match expression_x(t, k + 1) {
                                Option::None => Option::None,
                                Option::Some((e, m)) => Option::Some(
                                    (Option::Some(Box::new(e)), m),
                                ),
                            }
                        } else {
                            Option::Some((Option::None, k))
                        };
                        match els {
                            Option::None => Option::None,
                            Option::Some((else_expr, m)) => if m < t.len() && kw(&t[m], "END") {
                                proof {
                                    crate::ast::lemma_view_opt_unfold(else_expr);
                                }
                                Option::Some(
                                    (
                                        AstNode::CaseExpression {
                                            expr: scrutinee,
                                            when_expr: whens,
                                            else_expr,
                                        },
                                        m + 1,
                                    ),
                                )
                            } else {
                                Option::None
                            },
                        }
                    },
                }
            },
        }
    } else {
        Option::None
    }
}

/// Exec twin of `grammar::substring_body`.
#[verifier::rlimit(100)]
fn substring_body_x(t: &Vec<Token>, i: usize) -> (r: Option<(AstNode, usize)>)
    requires
        i <= t@.len(),
    ensures
        ({
            let g = grammar::substring_body(t.deep_view(), i as int);
            match r {
                Option::Some((n, j)) => g == Option::Some((n@, j as int)) && i < j <= t@.len(),
                Option::None => g is None,
            }
        }),
    decreases t@.len() - i, 0int,
{
    proof {
        assert(t.deep_view().len() == t@.len());
    }
    if i < t.len() && matches!(&t[i], Token::LParen) {
        match expression_x(t, i + 1) {
            Option::None => Option::None,
            Option::Some((e1, j)) => if j < t.len() && kw(&t[j], "FROM") {
                match expression_x(t, j + 1) {
                    Option::None => Option::None,
                    Option::Some((e2, k)) => if k < t.len() && kw(&t[k], "FOR") {
                        match expression_x(t, k + 1) {
                            Option::None => Option::None,
                            Option::Some((e3, m)) => if m < t.len() && matches!(
                                &t[m],
                                Token::RParen,
                            ) {
                                let node = AstNode::SubstringFunction {
                                    string: Box::new(e1),
                                    position: Box::new(e2),
                                    length: Option::Some(Box::new(e3)),
                                };
                                proof {
                                    crate::ast::lemma_view_opt_unfold(
                                        node->SubstringFunction_length,
                                    );
                                }
                                Option::Some((node, m + 1))
                            } else {
                                Option::None
                            },
                        }
                    } else if k < t.len() && matches!(&t[k], Token::RParen) {
                        let node = AstNode::SubstringFunction {
                            string: Box::new(e1),
                            position: Box::new(e2),
                            length: Option::None,
                        };
                        proof {
                            crate::ast::lemma_view_opt_unfold(node->SubstringFunction_length);
                        }
                        Option::Some((node, k + 1))
                    } else {
                        Option::None
                    },
                }
            } else if j < t.len() && matches!(&t[j], Token::Comma) {
                match expression_x(t, j + 1) {
                    Option::None => Option::None,
                    Option::Some((e2, k)) => if k < t.len() && matches!(&t[k], Token::Comma) {
                        match expression_x(t, k + 1) {
                            Option::None => Option::None,
                            Option::Some((e3, m)) => if m < t.len() && matches!(
                                &t[m],
                                Token::RParen,
                            ) {
                                let node = AstNode::SubstringFunction {
                                    string: Box::new(e1),
                                    position: Box::new(e2),
                                    length: Option::Some(Box::new(e3)),
                                };
                                proof {
                                    crate::ast::lemma_view_opt_unfold(
                                        node->SubstringFunction_length,
                                    );
                                }
                                Option::Some((node, m + 1))
                            } else {
                                Option::None
                            },
                        }
                    } else if k < t.len() && matches!(&t[k], Token::RParen) {
                        let node = AstNode::SubstringFunction {
                            string: Box::new(e1),
                            position: Box::new(e2),
                            length: Option::None,
                        };
                        proof {
                            crate::ast::lemma_view_opt_unfold(node->SubstringFunction_length);
                        }
                        Option::Some((node, k + 1))
                    } else {
                        Option::None
                    },
                }
            } else {
                Option::None
            },
        }
    } else {
        Option::None
    }
}

/// Exec twin of `grammar::data_type`.
fn data_type_x(t: &Vec<Token>, i: usize) -> (r: Option<(AstNode, usize)>)
    requires
        i <= t@.len(),
    ensures
        ({
            let g = grammar::data_type(t.deep_view(), i as int);
            match r {
                Option::Some((n, j)) => g == Option::Some((n@, j as int)) && i < j <= t@.len(),
                Option::None => g is None,
            }
        }),
    decreases t@.len() - i, 0int,
{
    proof {
        assert(t.deep_view().len() == t@.len());
    }
    if i < t.len() {
        if kw(&t[i], "BOOLEAN") {
            Option::Some((AstNode::BooleanType, i + 1))
        } else if kw(&t[i], "DOUBLE") {
            if i + 1 < t.len() && kw(&t[i + 1], "PRECISION") {
                Option::Some((AstNode::DoubleType, i + 2))
            } else {
                Option::Some((AstNode::DoubleType, i + 1))
            }
        } else if kw(&t[i], "DATE") {
            Option::Some((AstNode::DateType, i + 1))
        } else if kw(&t[i], "TIMESTAMP") {
            Option::Some((AstNode::TimestampType, i + 1))
        } else if kw(&t[i], "LOCALTIMESTAMP") {
            Option::Some((AstNode::LocalTimestampType, i + 1))
        } else if kw(&t[i], "CHAR") {
            match paren_expr_list_x(t, i + 1) {
                Option::None => Option::None,
                Option::Some((es, j)) => if es.len() == 1 {
                    let n = args1(es);
                    Option::Some((AstNode::CharType { n: Box::new(n) }, j))
                } else {
                    Option::None
                },
            }
        } else if kw(&t[i], "VARCHAR") {
            match paren_expr_list_x(t, i + 1) {
                Option::None => Option::None,
                Option::Some((es, j)) => if es.len() == 1 {
                    let n = args1(es);
                    Option::Some((AstNode::VarcharType { n: Box::new(n) }, j))
                } else {
                    Option::None
                },
            }
        } else if kw(&t[i], "DECIMAL") {
            match paren_expr_list_x(t, i + 1) {
                Option::None => Option::None,
                Option::Some((es, j)) => if es.len() == 2 {
                    let (p, sc) = args2(es);
                    Option::Some(
                        (AstNode::DecimalType { p: Box::new(p), s: Box::new(sc) }, j),
                    )
                } else {
                    Option::None
                },
            }
        } else {
            Option::None
        }
    } else {
        Option::None
    }
}

} // verus!

verus! {

/// Exec twin of `grammar::function_expression`.
#[verifier::rlimit(100)]
fn function_expression_x(t: &Vec<Token>, i: usize) -> (r: Option<(AstNode, usize)>)
    requires
        i <= t@.len(),
    ensures
        ({
            let g = grammar::function_expression(t.deep_view(), i as int);
            match r {
                Option::Some((n, j)) => g == Option::Some((n@, j as int)) && i < j <= t@.len(),
                Option::None => g is None,
            }
        }),
    decreases t@.len() - i, 0int,
{
    let n = t.len();
    proof {
        assert(t.deep_view().len() == t@.len());
        assert(n == t@.len());
    }
    if kw_call_x(t, i, "COALESCE") {
        match paren_expr_list_x(t, i + 1) {
            Option::None => Option::None,
            Option::Some((es, j)) => Option::Some((AstNode::CoalesceFunction { exprs: es }, j)),
        }
    } else if kw_call_x(t, i, "CONCAT") {
        match paren_expr_list_x(t, i + 1) {
            Option::None => Option::None,
            Option::Some((es, j)) => Option::Some((AstNode::ConcatFunction { exprs: es }, j)),
        }
    } else if kw_call_x(t, i, "CAST") {
        match expression_x(t, i + 2) {
            Option::None => Option::None,
            Option::Some((e, j)) => if j < t.len() && kw(&t[j], "AS") {
                match data_type_x(t, j + 1) {
                    Option::None => Option::None,
                    Option::Some((dt, k)) => if k < t.len() && matches!(&t[k], Token::RParen) {
                        Option::Some(
                            (
                                AstNode::CastFunction {
                                    expr: Box::new(e),
                                    data_type: Box::new(dt),
                                },
                                k + 1,
                            ),
                        )
                    } else {
                        Option::None
                    },
                }
            } else {
                Option::None
            },
        }
    } else if kw_call_x(t, i, "REPLACE") {
        match paren_expr_list_x(t, i + 1) {
            Option::None => Option::None,
            Option::Some((es, j)) => if es.len() == 2 {
                let (a, b) = args2(es);
                let node = AstNode::ReplaceFunction {
                    string: Box::new(a),
                    search_string: Box::new(b),
                    replace_string: Option::None,
                };
                proof {
                    crate::ast::lemma_view_opt_unfold(node->ReplaceFunction_replace_string);
                }
                Option::Some((node, j))
            } else if es.len() == 3 {
                let (a, b, c) = args3(es);
                let node = AstNode::ReplaceFunction {
                    string: Box::new(a),
                    search_string: Box::new(b),
                    replace_string: Option::Some(Box::new(c)),
                };
                proof {
                    crate::ast::lemma_view_opt_unfold(node->ReplaceFunction_replace_string);
                }
                Option::Some((node, j))
            } else {
                Option::None
            },
        }
    } else if kw_call_x(t, i, "SUBSTRING") || kw_call_x(t, i, "SUBSTR") {
        substring_body_x(t, i + 1)
    } else if kw_call_x(t, i, "TO_DATE") {
        match paren_expr_list_x(t, i + 1) {
            Option::None => Option::None,
            Option::Some((es, j)) => if es.len() == 1 {
                let a = args1(es);
                let node = AstNode::ToDateFunction {
                    string: Box::new(a),
                    format: Option::None,
                };
                proof {
                    crate::ast::lemma_view_opt_unfold(node->ToDateFunction_format);
                }
                Option::Some((node, j))
            } else if es.len() == 2 {
                let (a, b) = args2(es);
                let node = AstNode::ToDateFunction {
                    string: Box::new(a),
                    format: Option::Some(Box::new(b)),
                };
                proof {
                    crate::ast::lemma_view_opt_unfold(node->ToDateFunction_format);
                }
                Option::Some((node, j))
            } else {
                Option::None
            },
        }
    } else if kw_call_x(t, i, "RIGHT") {
        match paren_expr_list_x(t, i + 1) {
            Option::None => Option::None,
            Option::Some((es, j)) => if es.len() == 2 {
                let (a, b) = args2(es);
                Option::Some(
                    (AstNode::RightFunction { string: Box::new(a), length: Box::new(b) }, j),
                )
            } else {
                Option::None
            },
        }
    } else if kw_call_x(t, i, "POWER") {
        match paren_expr_list_x(t, i + 1) {
            Option::None => Option::None,
            Option::Some((es, j)) => if es.len() == 2 {
                let (a, b) = args2(es);
                Option::Some(
                    (AstNode::PowerFunction { base: Box::new(a), exponent: Box::new(b) }, j),
                )
            } else {
                Option::None
            },
        }
    } else if kw_call_x(t, i, "DATE_TRUNC") {
        match paren_expr_list_x(t, i + 1) {
            Option::None => Option::None,
            Option::Some((es, j)) => if es.len() == 2 {
                let (a, b) = args2(es);
                Option::Some(
                    (
                        AstNode::DateTruncFunction {
                            format: Box::new(a),
                            datetime: Box::new(b),
                        },
                        j,
                    ),
                )
            } else {
                Option::None
            },
        }
    } else if kw_call_x(t, i, "MONTHS_BETWEEN") {
        match paren_expr_list_x(t, i + 1) {
            Option::None => Option::None,
            Option::Some((es, j)) => if es.len() == 2 {
                let (a, b) = args2(es);
                Option::Some(
                    (
                        AstNode::MonthsBetweenFunction {
                            datetime1: Box::new(a),
                            datetime2: Box::new(b),
                        },
                        j,
                    ),
                )
            } else {
                Option::None
            },
        }
    } else if kw_call_x(t, i, "MAX") {
        match aggregate_body_x(t, i + 1) {
            Option::None => Option::None,
            Option::Some(((m, e), j)) => {
                let mode = AstNode::SelectMode { mode: m };
                proof {
                    assert(view_node(mode) == (crate::ast::AstView::SelectMode { mode: m }));
                }
                Option::Some(
                    (AstNode::MaxFunction { mode: Box::new(mode), expr: Box::new(e) }, j),
                )
            },
        }
    } else if kw_call_x(t, i, "MIN") {
        match aggregate_body_x(t, i + 1) {
            Option::None => Option::None,
            Option::Some(((m, e), j)) => {
                let mode = AstNode::SelectMode { mode: m };
                proof {
                    assert(view_node(mode) == (crate::ast::AstView::SelectMode { mode: m }));
                }
                Option::Some(
                    (AstNode::MinFunction { mode: Box::new(mode), expr: Box::new(e) }, j),
                )
            },
        }
    } else if kw_call_x(t, i, "SUM") {
        match aggregate_body_x(t, i + 1) {
            Option::None => Option::None,
            Option::Some(((m, e), j)) => {
                let mode = AstNode::SelectMode { mode: m };
                proof {
                    assert(view_node(mode) == (crate::ast::AstView::SelectMode { mode: m }));
                }
                Option::Some(
                    (AstNode::SumFunction { mode: Box::new(mode), expr: Box::new(e) }, j),
                )
            },
        }
    } else if kw_call_x(t, i, "COUNT") {
        match count_body_x(t, i + 1) {
            Option::None => Option::None,
            Option::Some(((m, cols), j)) => {
                let mode = AstNode::SelectMode { mode: m };
                proof {
                    assert(view_node(mode) == (crate::ast::AstView::SelectMode { mode: m }));
                }
                Option::Some(
                    (AstNode::CountFunction { mode: Box::new(mode), columns: cols }, j),
                )
            },
        }
    } else if i < t.len() && kw(&t[i], "DATE") && !(i + 1 < t.len() && matches!(
        &t[i + 1],
        Token::LParen,
    )) {
        match operand_x(t, i + 1) {
            Option::None => Option::None,
            Option::Some((e, j)) => {
                let node = AstNode::ToDateFunction {
                    string: Box::new(e),
                    format: Option::None,
                };
                proof {
                    crate::ast::lemma_view_opt_unfold(node->ToDateFunction_format);
                }
                Option::Some((node, j))
            },
        }
    } else {
        match qualified_identifier_x(t, i) {
            Option::None => Option::None,
            Option::Some((name, j)) => if j < t.len() && matches!(&t[j], Token::LParen) {
                match paren_expr_list_x(t, j) {
                    Option::None => Option::None,
                    Option::Some((es, k)) => Option::Some(
                        (AstNode::UnknownFunction { name: Box::new(name), exprs: es }, k),
                    ),
                }
            } else {
                Option::None
            },
        }
    }
}

/// Exec twin of `grammar::signed_expression`.
fn signed_expression_x(t: &Vec<Token>, i: usize) -> (r: Option<(AstNode, usize)>)
    requires
        i <= t@.len(),
    ensures
        ({
            let g = grammar::signed_expression(t.deep_view(), i as int);
            match r {
                Option::Some((n, j)) => g == Option::Some((n@, j as int)) && i < j <= t@.len(),
                Option::None => g is None,
            }
        }),
    decreases t@.len() - i, 0int,
{
    proof {
        assert(t.deep_view().len() == t@.len());
    }
    if i < t.len() && matches!(&t[i], Token::Plus | Token::Minus) {
        let sign = if matches!(&t[i], Token::Plus) {
            Sign::Positive
        } else {
            Sign::Negative
        };
        match operand_x(t, i + 1) {
            Option::None => Option::None,
            Option::Some((e, j)) => Option::Some(
                (AstNode::SignedExpression { sign, expr: Box::new(e) }, j),
            ),
        }
    } else {
        Option::None
    }
}

/// Exec twin of `grammar::atom`.
fn atom_x(t: &Vec<Token>, i: usize) -> (r: Option<(AstNode, usize)>)
    requires
        i <= t@.len(),
    ensures
        ({
            let g = grammar::atom(t.deep_view(), i as int);
            match r {
                Option::Some((n, j)) => g == Option::Some((n@, j as int)) && i < j <= t@.len(),
                Option::None => g is None,
            }
        }),
    decreases t@.len() - i, 1int,
{
    proof {
        assert(t.deep_view().len() == t@.len());
    }
    if i >= t.len() {
        Option::None
    } else if kw(&t[i], "CASE") {
        case_expression_x(t, i)
    } else if kw(&t[i], "INTERVAL") {
        interval_literal_x(t, i)
    } else {
        match &t[i] {
            Token::Word { .. } => {
                match function_expression_x(t, i) {
                    Option::Some(r2) => Option::Some(r2),
                    Option::None => {
                        match literal_unsigned_x(t, i) {
                            Option::Some(r2) => Option::Some(r2),
                            Option::None => qualified_identifier_x(t, i),
                        }
                    },
                }
            },
            Token::Int { .. } => literal_unsigned_x(t, i),
            Token::Dec { .. } => literal_unsigned_x(t, i),
            Token::Float { .. } => literal_unsigned_x(t, i),
            Token::Str { .. } => literal_unsigned_x(t, i),
            Token::Plus => signed_expression_x(t, i),
            Token::Minus => signed_expression_x(t, i),
            Token::LParen => {
                match expression_x(t, i + 1) {
                    Option::None => Option::None,
                    Option::Some((e, j)) => if j < t.len() && matches!(&t[j], Token::RParen) {
                        Option::Some((e, j + 1))
                    } else {
                        Option::None
                    },
                }
            },
            _ => Option::None,
        }
    }
}

/// Exec twin of `grammar::operand`.
fn operand_x(t: &Vec<Token>, i: usize) -> (r: Option<(AstNode, usize)>)
    requires
        i <= t@.len(),
    ensures
        ({
            let g = grammar::operand(t.deep_view(), i as int);
            match r {
                Option::Some((n, j)) => g == Option::Some((n@, j as int)) && i < j <= t@.len(),
                Option::None => g is None,
            }
        }),
    decreases t@.len() - i, 2int,
{
    proof {
        assert(t.deep_view().len() == t@.len());
    }
    match atom_x(t, i) {
        Option::None => Option::None,
        Option::Some((e, j)) => if j < t.len() && kw(&t[j], "IS") {
            if j + 1 < t.len() && kw(&t[j + 1], "NULL") {
                Option::Some(
                    (AstNode::IsNullExpression { expr: Box::new(e), is_null: true }, j + 2),
                )
            } else if j + 1 < t.len() && j + 2 < t.len() && kw(&t[j + 1], "NOT") && kw(
                &t[j + 2],
                "NULL",
            ) {
                Option::Some(
                    (AstNode::IsNullExpression { expr: Box::new(e), is_null: false }, j + 3),
                )
            } else {
                Option::None
            }
        } else {
            Option::Some((e, j))
        },
    }
}

/// Exec twin of `grammar::expr_chain`.
fn expr_chain_x(t: &Vec<Token>, i: usize) -> (r: Option<(Vec<(Operation, AstNode)>, usize)>)
    requires
        i <= t@.len(),
    ensures
        ({
            let g = grammar::expr_chain(t.deep_view(), i as int);
            match r {
                Option::Some((v, j)) => g == Option::Some((v.deep_view(), j as int)) && i <= j
                    <= t@.len(),
                Option::None => g is None,
            }
        }),
    decreases t@.len() - i, 0int,
{
    proof {
        assert(t.deep_view().len() == t@.len());
    }
    if i < t.len() {
        match binop_of_x(&t[i]) {
            Option::None => {
                let v: Vec<(Operation, AstNode)> = Vec::new();
                proof {
                    assert(v.deep_view()
                        =~= Seq::<(Operation, crate::ast::AstView)>::empty());
                }
                Option::Some((v, i))
            },
            Option::Some(op) => {
                match operand_x(t, i + 1) {
                    Option::None => Option::None,
                    Option::Some((e, j)) => {
                        match expr_chain_x(t, j) {
                            Option::None => Option::None,
                            Option::Some((mut ops, k)) => {
                                let ghost tail = ops.deep_view();
                                let ghost ev = e@;
                                ops.insert(0, (op, e));
                                proof {
                                    assert(ops.deep_view() =~= seq![(op, ev)] + tail);
                                }
                                Option::Some((ops, k))
                            },
                        }
                    },
                }
            },
        }
    } else {
        let v: Vec<(Operation, AstNode)> = Vec::new();
        proof {
            assert(v.deep_view() =~= Seq::<(Operation, crate::ast::AstView)>::empty());
        }
        Option::Some((v, i))
    }
}

/// Exec twin of `grammar::expression`: parses the flat chain and resolves
/// it with the precedence climber.
fn expression_x(t: &Vec<Token>, i: usize) -> (r: Option<(AstNode, usize)>)
    requires
        i <= t@.len(),
    ensures
        ({
            let g = grammar::expression(t.deep_view(), i as int);
            match r {
                Option::Some((n, j)) => g == Option::Some((n@, j as int)) && i < j <= t@.len(),
                Option::None => g is None,
            }
        }),
    decreases t@.len() - i, 3int,
{
    proof {
        assert(t.deep_view().len() == t@.len());
    }
    match operand_x(t, i) {
        Option::None => Option::None,
        Option::Some((first, j)) => {
            match expr_chain_x(t, j) {
                Option::None => Option::None,
                Option::Some((ops, k)) => {
                    let ghost fv = first@;
                    let ghost ov = ops.deep_view();
                    let node = climb(first, ops);
                    Option::Some((node, k))
                },
            }
        },
    }
}

} // verus!

verus! {

/// Exec twin of `grammar::column`.
fn column_x(t: &Vec<Token>, i: usize) -> (r: Option<(AstNode, usize)>)
    requires
        i <= t@.len(),
    ensures
        ({
            let g = grammar::column(t.deep_view(), i as int);
            match r {
                Option::Some((n, j)) => g == Option::Some((n@, j as int)) && i < j <= t@.len(),
                Option::None => g is None,
            }
        }),
{
    proof {
        assert(t.deep_view().len() == t@.len());
    }
    let star_form = match qualified_identifier_x(t, i) {
        Option::Some((qi, j)) => if j < t.len() && j + 1 < t.len() && matches!(&t[j], Token::Dot)
            && matches!(&t[j + 1], Token::Star) {
            Option::Some((AstNode::AllColumnsFrom { schema: Box::new(qi) }, j + 2))
        } else {
            Option::None
        },
        Option::None => Option::None,
    };
    match star_form {
        Option::Some(r2) => Option::Some(r2),
        Option::None => match expression_x(t, i) {
            Option::None => Option::None,
            Option::Some((e, j)) => {
                let (alias, k) = alias_opt_x(t, j);
                match alias {
                    Option::Some(name) => Option::Some(
                        (
                            AstNode::NamedColumn {
                                expr: Box::new(e),
                                alias: Some(name),
                            },
                            k,
                        ),
                    ),
                    Option::None => Option::Some((e, j)),
                }
            },
        },
    }
}

/// Exec twin of `grammar::column_list`.
fn column_list_x(t: &Vec<Token>, i: usize) -> (r: Option<(Vec<AstNode>, usize)>)
    requires
        i <= t@.len(),
    ensures
        ({
            let g = grammar::column_list(t.deep_view(), i as int);
            match r {
                Option::Some((v, j)) => g == Option::Some((v.deep_view(), j as int)) && i < j
                    <= t@.len(),
                Option::None => g is None,
            }
        }),
    decreases t@.len() - i,
{
    proof {
        assert(t.deep_view().len() == t@.len());
    }
    match column_x(t, i) {
        Option::None => Option::None,
        Option::Some((c, j)) => {
            if j < t.len() && matches!(&t[j], Token::Comma) {
                match column_list_x(t, j + 1) {
                    Option::None => Option::None,
                    Option::Some((mut cs, k)) => {
                        let ghost tail = cs.deep_view();
                        cs.insert(0, c);
                        proof {
                            assert(cs.deep_view() =~= seq![c@] + tail);
                        }
                        Option::Some((cs, k))
                    },
                }
            } else {
                let mut v: Vec<AstNode> = Vec::new();
                v.push(c);
                proof {
                    assert(v.deep_view() =~= seq![c@]);
                }
                Option::Some((v, j))
            }
        },
    }
}

/// Exec twin of `grammar::columns`.
fn columns_x(t: &Vec<Token>, i: usize) -> (r: Option<(Vec<AstNode>, usize)>)
    requires
        i <= t@.len(),
    ensures
        ({
            let g = grammar::columns(t.deep_view(), i as int);
            match r {
                Option::Some((v, j)) => g == Option::Some((v.deep_view(), j as int)) && i < j
                    <= t@.len(),
                Option::None => g is None,
            }
        }),
{
    proof {
        assert(t.deep_view().len() == t@.len());
    }
    if i < t.len() && matches!(&t[i], Token::Star) {
        let mut v: Vec<AstNode> = Vec::new();
        v.push(AstNode::AllColumns);
        proof {
            assert(v.deep_view() =~= seq![crate::ast::AstView::AllColumns]);
        }
        Option::Some((v, i + 1))
    } else {
        column_list_x(t, i)
    }
}

/// Exec twin of `grammar::named_table_expression`.
fn named_table_expression_x(t: &Vec<Token>, i: usize) -> (r: Option<(AstNode, usize)>)
    requires
        i <= t@.len(),
    ensures
        ({
            let g = grammar::named_table_expression(t.deep_view(), i as int);
            match r {
                Option::Some((n, j)) => g == Option::Some((n@, j as int)) && i < j <= t@.len(),
                Option::None => g is None,
            }
        }),
{
    proof {
        assert(t.deep_view().len() == t@.len());
    }
    match qualified_identifier_x(t, i) {
        Option::None => Option::None,
        Option::Some((nm, j)) => {
            let (alias, k) = alias_opt_x(t, j);
            Option::Some((AstNode::NamedTableExpression { name: Box::new(nm), alias }, k))
        },
    }
}

/// Exec twin of `grammar::join_constraint`.
fn join_constraint_x(t: &Vec<Token>, i: usize) -> (r: Option<(AstNode, usize)>)
    requires
        i <= t@.len(),
    ensures
        ({
            let g = grammar::join_constraint(t.deep_view(), i as int);
            match r {
                Option::Some((n, j)) => g == Option::Some((n@, j as int)) && i < j <= t@.len(),
                Option::None => g is None,
            }
        }),
{
    proof {
        assert(t.deep_view().len() == t@.len());
    }
    if i < t.len() && kw(&t[i], "ON") {
        match expression_x(t, i + 1) {
            Option::None => Option::None,
            Option::Some((e, j)) => Option::Some(
                (AstNode::JoinConstraintOn { expr: Box::new(e) }, j),
            ),
        }
    } else if i < t.len() && i + 1 < t.len() && kw(&t[i], "USING") && matches!(
        &t[i + 1],
        Token::LParen,
    ) {
        match ident_list_x(t, i + 2) {
            Option::None => Option::None,
            Option::Some((ids, j)) => if j < t.len() && matches!(&t[j], Token::RParen) {
                Option::Some((AstNode::JoinConstraintUsing { columns: ids }, j + 1))
            } else {
                Option::None
            },
        }
    } else {
        Option::None
    }
}

/// Exec twin of `grammar::join_clause`.
fn join_clause_x(t: &Vec<Token>, i: usize) -> (r: Option<(AstNode, usize)>)
    requires
        i <= t@.len(),
    ensures
        ({
            let g = grammar::join_clause(t.deep_view(), i as int);
            match r {
                Option::Some((n, j)) => g == Option::Some((n@, j as int)) && i < j <= t@.len(),
                Option::None => g is None,
            }
        }),
{
    proof {
        assert(t.deep_view().len() == t@.len());
    }
    match join_type_x(t, i) {
        Option::None => Option::None,
        Option::Some((jt, j)) => match named_table_expression_x(t, j) {
            Option::None => Option::None,
            Option::Some((te, k)) => match join_constraint_x(t, k) {
                Option::None => Option::None,
                Option::Some((c, m)) => Option::Some(
                    (
                        AstNode::JoinClause {
                            join_type: Box::new(jt),
                            table_expr: Box::new(te),
                            constraint: Box::new(c),
                        },
                        m,
                    ),
                ),
            },
        },
    }
}

/// Exec twin of `grammar::at_join`.
fn at_join_x(t: &Vec<Token>, i: usize) -> (r: bool)
    requires
        i <= t@.len(),
    ensures
        r == grammar::at_join(t.deep_view(), i as int),
{
    proof {
        assert(t.deep_view().len() == t@.len());
    }
    i < t.len() && (kw(&t[i], "JOIN") || kw(&t[i], "INNER") || kw(&t[i], "LEFT") || kw(
        &t[i],
        "RIGHT",
    ) || kw(&t[i], "FULL"))
}

/// Exec twin of `grammar::table_tail`.
fn table_tail_x(t: &Vec<Token>, i: usize) -> (r: Option<(Vec<AstNode>, usize)>)
    requires
        i <= t@.len(),
    ensures
        ({
            let g = grammar::table_tail(t.deep_view(), i as int);
            match r {
                Option::Some((v, j)) => g == Option::Some((v.deep_view(), j as int)) && i <= j
                    <= t@.len(),
                Option::None => g is None,
            }
        }),
    decreases t@.len() - i,
{
    proof {
        assert(t.deep_view().len() == t@.len());
    }
    if i < t.len() && matches!(&t[i], Token::Comma) {
        match named_table_expression_x(t, i + 1) {
            Option::None => Option::None,
            Option::Some((te, j)) => match table_tail_x(t, j) {
                Option::None => Option::None,
                Option::Some((mut ts, k)) => {
                    let ghost tail = ts.deep_view();
                    ts.insert(0, te);
                    proof {
                        assert(ts.deep_view() =~= seq![te@] + tail);
                    }
                    Option::Some((ts, k))
                },
            },
        }
    } else if at_join_x(t, i) {
        match join_clause_x(t, i) {
            Option::None => Option::None,
            Option::Some((jc, j)) => match table_tail_x(t, j) {
                Option::None => Option::None,
                Option::Some((mut ts, k)) => {
                    let ghost tail = ts.deep_view();
                    ts.insert(0, jc);
                    proof {
                        assert(ts.deep_view() =~= seq![jc@] + tail);
                    }
                    Option::Some((ts, k))
                },
            },
        }
    } else {
        let v: Vec<AstNode> = Vec::new();
        proof {
            assert(v.deep_view() =~= Seq::<crate::ast::AstView>::empty());
        }
        Option::Some((v, i))
    }
}

/// Exec twin of `grammar::table_expressions`.
fn table_expressions_x(t: &Vec<Token>, i: usize) -> (r: Option<(Vec<AstNode>, usize)>)
    requires
        i <= t@.len(),
    ensures
        ({
            let g = grammar::table_expressions(t.deep_view(), i as int);
            match r {
                Option::Some((v, j)) => g == Option::Some((v.deep_view(), j as int)) && i < j
                    <= t@.len(),
                Option::None => g is None,
            }
        }),
{
    proof {
        assert(t.deep_view().len() == t@.len());
    }
    match named_table_expression_x(t, i) {
        Option::None => Option::None,
        Option::Some((te, j)) => match table_tail_x(t, j) {
            Option::None => Option::None,
            Option::Some((mut ts, k)) => {
                let ghost tail = ts.deep_view();
                ts.insert(0, te);
                proof {
                    assert(ts.deep_view() =~= seq![te@] + tail);
                }
                Option::Some((ts, k))
            },
        },
    }
}

/// Exec twin of `grammar::where_clause`.
fn where_clause_x(t: &Vec<Token>, i: usize) -> (r: Option<(AstNode, usize)>)
    requires
        i <= t@.len(),
    ensures
        ({
            let g = grammar::where_clause(t.deep_view(), i as int);
            match r {
                Option::Some((n, j)) => g == Option::Some((n@, j as int)) && i < j <= t@.len(),
                Option::None => g is None,
            }
        }),
{
    proof {
        assert(t.deep_view().len() == t@.len());
    }
    if i < t.len() && kw(&t[i], "WHERE") {
        expression_x(t, i + 1)
    } else {
        Option::None
    }
}

/// Exec twin of `grammar::group_by`.
fn group_by_x(t: &Vec<Token>, i: usize) -> (r: Option<(AstNode, usize)>)
    requires
        i <= t@.len(),
    ensures
        ({
            let g = grammar::group_by(t.deep_view(), i as int);
            match r {
                Option::Some((n, j)) => g == Option::Some((n@, j as int)) && i < j <= t@.len(),
                Option::None => g is None,
            }
        }),
{
    proof {
        assert(t.deep_view().len() == t@.len());
    }
    if i < t.len() && i + 1 < t.len() && kw(&t[i], "GROUP") && kw(&t[i + 1], "BY") {
        match expr_list_x(t, i + 2) {
            Option::None => Option::None,
            Option::Some((es, j)) => {
                let node = AstNode::GroupBy { groupings: es, having: Option::None };
                proof {
                    assert(crate::ast::view_opt(Option::None) is None);
                }
                Option::Some((node, j))
            },
        }
    } else {
        Option::None
    }
}

/// Exec twin of `grammar::with_clause`.
fn with_clause_x(t: &Vec<Token>, i: usize) -> (r: Option<(AstNode, usize)>)
    requires
        i <= t@.len(),
    ensures
        ({
            let g = grammar::with_clause(t.deep_view(), i as int);
            match r {
                Option::Some((n, j)) => g == Option::Some((n@, j as int)) && i < j <= t@.len(),
                Option::None => g is None,
            }
        }),
    decreases t@.len() - i, 0int,
{
    proof {
        assert(t.deep_view().len() == t@.len());
    }
    if i < t.len() && i + 1 < t.len() && i + 2 < t.len() && kw(&t[i + 1], "AS") && matches!(
        &t[i + 2],
        Token::LParen,
    ) {
        match &t[i] {
            Token::Word { s: name } => {
                let head = AstNode::Identifier { s: name.clone() };
                proof {
                    assert(view_node(head) == (crate::ast::AstView::Identifier { s: name@ }));
                }
                match select_statement_x(t, i + 3) {
                    Option::None => Option::None,
                    Option::Some((q, j)) => if j < t.len() && matches!(&t[j], Token::RParen) {
                        let cols: Vec<AstNode> = Vec::new();
                        proof {
                            assert(cols.deep_view() =~= Seq::<crate::ast::AstView>::empty());
                        }
                        Option::Some(
                            (
                                AstNode::WithClause {
                                    identifier: Box::new(head),
                                    columns: cols,
                                    query: Box::new(q),
                                },
                                j + 1,
                            ),
                        )
                    } else {
                        Option::None
                    },
                }
            },
            _ => Option::None,
        }
    } else {
        Option::None
    }
}

/// Exec twin of `grammar::cte_list`.
fn cte_list_x(t: &Vec<Token>, i: usize) -> (r: Option<(Vec<AstNode>, usize)>)
    requires
        i <= t@.len(),
    ensures
        ({
            let g = grammar::cte_list(t.deep_view(), i as int);
            match r {
                Option::Some((v, j)) => g == Option::Some((v.deep_view(), j as int)) && i < j
                    <= t@.len(),
                Option::None => g is None,
            }
        }),
    decreases t@.len() - i, 1int,
{
    proof {
        assert(t.deep_view().len() == t@.len());
    }
    match with_clause_x(t, i) {
        Option::None => Option::None,
        Option::Some((c, j)) => {
            if j < t.len() && matches!(&t[j], Token::Comma) {
                match cte_list_x(t, j + 1) {
                    Option::None => Option::None,
                    Option::Some((mut cs, k)) => {
                        let ghost tail = cs.deep_view();
                        cs.insert(0, c);
                        proof {
                            assert(cs.deep_view() =~= seq![c@] + tail);
                        }
                        Option::Some((cs, k))
                    },
                }
            } else {
                let mut v: Vec<AstNode> = Vec::new();
                v.push(c);
                proof {
                    assert(v.deep_view() =~= seq![c@]);
                }
                Option::Some((v, j))
            }
        },
    }
}

/// Exec twin of `grammar::select_statement`.
#[verifier::rlimit(100)]
fn select_statement_x(t: &Vec<Token>, i: usize) -> (r: Option<(AstNode, usize)>)
    requires
        i <= t@.len(),
    ensures
        ({
            let g = grammar::select_statement(t.deep_view(), i as int);
            match r {
                Option::Some((n, j)) => g == Option::Some((n@, j as int)) && i < j <= t@.len(),
                Option::None => g is None,
            }
        }),
    decreases t@.len() - i, 2int,
{
    proof {
        assert(t.deep_view().len() == t@.len());
    }
    let with_part: Option<(Vec<AstNode>, usize)> = if i < t.len() && kw(&t[i], "WITH") {
        match cte_list_x(t, i + 1) {
            Option::None => Option::None,
            Option::Some((cs, j)) => Option::Some((cs, j)),
        }
    } else {
        let v: Vec<AstNode> = Vec::new();
        proof {
            assert(v.deep_view() =~= Seq::<crate::ast::AstView>::empty());
        }
        Option::Some((v, i))
    };
    match with_part {
        Option::None => Option::None,
        Option::Some((common, j0)) => if j0 < t.len() && kw(&t[j0], "SELECT") {
            let (mode, m1) = if j0 + 1 < t.len() && kw(&t[j0 + 1], "DISTINCT") {
                (SelectMode::Distinct, j0 + 2)
            } else if j0 + 1 < t.len() && kw(&t[j0 + 1], "ALL") {
                (SelectMode::All, j0 + 2)
            } else {
                (SelectMode::All, j0 + 1)
            };
            match columns_x(t, m1) {
                Option::None => Option::None,
                Option::Some((cols, j1)) => {
                    let from_part: Option<(Vec<AstNode>, usize)> = if j1 < t.len() && kw(
                        &t[j1],
                        "FROM",
                    ) {
                        match table_expressions_x(t, j1 + 1) {
                            Option::None => Option::None,
                            Option::Some((ts, j2)) => Option::Some((ts, j2)),
                        }
                    } else {
                        let v: Vec<AstNode> = Vec::new();
                        proof {
                            assert(v.deep_view() =~= Seq::<crate::ast::AstView>::empty());
                        }
                        Option::Some((v, j1))
                    };
                    match from_part {
                        Option::None => Option::None,
                        Option::Some((tables, j2)) => {
                            let where_part: Option<(Option<Box<AstNode>>, usize)> = if j2
                                < t.len() && kw(&t[j2], "WHERE") {
                                match where_clause_x(t, j2) {
                                    Option::None => Option::None,
                                    Option::Some((e, j3)) => Option::Some(
                                        (Option::Some(Box::new(e)), j3),
                                    ),
                                }
                            } else {
                                Option::Some((Option::None, j2))
                            };
                            match where_part {
                                Option::None => Option::None,
                                Option::Some((where_expr, j3)) => {
                                    let group_part: Option<(Option<Box<AstNode>>, usize)> = if j3
                                        < t.len() && kw(&t[j3], "GROUP") {
                                        match group_by_x(t, j3) {
                                            Option::None => Option::None,
                                            Option::Some((gb, j4)) => Option::Some(
                                                (Option::Some(Box::new(gb)), j4),
                                            ),
                                        }
                                    } else {
                                        Option::Some((Option::None, j3))
                                    };
                                    match group_part {
                                        Option::None => Option::None,
                                        Option::Some((gb, j4)) => {
                                            proof {
                                                crate::ast::lemma_view_opt_unfold(where_expr);
                                                crate::ast::lemma_view_opt_unfold(gb);
                                            }
                                            Option::Some(
                                                (
                                                    AstNode::SelectStatement {
                                                        common,
                                                        mode,
                                                        columns: cols,
                                                        table_exprs: tables,
                                                        where_expr,
                                                        group_by: gb,
                                                    },
                                                    j4,
                                                ),
                                            )
                                        },
                                    }
                                },
                            }
                        },
                    }
                },
            }
        } else {
            Option::None
        },
    }
}

} // verus!

verus! {

/// The parse failure reported when tokenization stops.
fn lex_error(pos: usize) -> (r: ParseError)
    ensures
        r.pos == pos,
{
    ParseError { pos, msg: String::from_str("no token of the lexical grammar starts here") }
}

/// The parse failure reported when the token sequence matches no rule.
fn syntax_error() -> (r: ParseError) {
    ParseError { pos: 0, msg: String::from_str("the input does not match the grammar") }
}

/// The parser: each associated function applies one grammar rule to a whole
/// input text, and `parse` applies the statement rule.  Every function
/// returns exactly the tree its rule denotes for the text, or an error
/// exactly when the rule denotes none.
pub struct SqlParser;

impl SqlParser {
    /// Parses a whole text as one expression.
    pub fn parse_expression(sql: &str) -> (r: Result<AstNode, ParseError>)
        ensures
            match r {
                Result::Ok(n) => grammar::parsed_expression(sql@) == Option::Some(n@),
                Result::Err(_) => grammar::parsed_expression(sql@) is None,
            },
    {
        match tokenize(sql) {
            Result::Err(pos) => Result::Err(lex_error(pos)),
            Result::Ok(toks) => {
                proof {
                    assert(toks.deep_view().len() == toks@.len());
                }
                match expression_x(&toks, 0) {
                    Option::Some((n, j)) => if j == toks.len() {
                        Result::Ok(n)
                    } else {
                        Result::Err(syntax_error())
                    },
                    Option::None => Result::Err(syntax_error()),
                }
            },
        }
    }

    /// Parses a whole text as one literal value.
    pub fn parse_literal_value(sql: &str) -> (r: Result<AstNode, ParseError>)
        ensures
            match r {
                Result::Ok(n) => grammar::parsed_literal_value(sql@) == Option::Some(n@),
                Result::Err(_) => grammar::parsed_literal_value(sql@) is None,
            },
    {
        match tokenize(sql) {
            Result::Err(pos) => Result::Err(lex_error(pos)),
            Result::Ok(toks) => {
                proof {
                    assert(toks.deep_view().len() == toks@.len());
                }
                match literal_value_x(&toks, 0) {
                    Option::Some((n, j)) => if j == toks.len() {
                        Result::Ok(n)
                    } else {
                        Result::Err(syntax_error())
                    },
                    Option::None => Result::Err(syntax_error()),
                }
            },
        }
    }

    /// Parses a whole text as one interval literal.
    pub fn parse_interval_literal(sql: &str) -> (r: Result<AstNode, ParseError>)
        ensures
            match r {
                Result::Ok(n) => grammar::parsed_interval_literal(sql@) == Option::Some(n@),
                Result::Err(_) => grammar::parsed_interval_literal(sql@) is None,
            },
    {
        match tokenize(sql) {
            Result::Err(pos) => Result::Err(lex_error(pos)),
            Result::Ok(toks) => {
                proof {
                    assert(toks.deep_view().len() == toks@.len());
                }
                match interval_literal_x(&toks, 0) {
                    Option::Some((n, j)) => if j == toks.len() {
                        Result::Ok(n)
                    } else {
                        Result::Err(syntax_error())
                    },
                    Option::None => Result::Err(syntax_error()),
                }
            },
        }
    }

    /// Parses a whole text as one data type.
    pub fn parse_data_type(sql: &str) -> (r: Result<AstNode, ParseError>)
        ensures
            match r {
                Result::Ok(n) => grammar::parsed_data_type(sql@) == Option::Some(n@),
                Result::Err(_) => grammar::parsed_data_type(sql@) is None,
            },
    {
        match tokenize(sql) {
            Result::Err(pos) => Result::Err(lex_error(pos)),
            Result::Ok(toks) => {
                proof {
                    assert(toks.deep_view().len() == toks@.len());
                }
                match data_type_x(&toks, 0) {
                    Option::Some((n, j)) => if j == toks.len() {
                        Result::Ok(n)
                    } else {
                        Result::Err(syntax_error())
                    },
                    Option::None => Result::Err(syntax_error()),
                }
            },
        }
    }

    /// Parses a whole text as one result column.
    pub fn parse_column(sql: &str) -> (r: Result<AstNode, ParseError>)
        ensures
            match r {
                Result::Ok(n) => grammar::parsed_column(sql@) == Option::Some(n@),
                Result::Err(_) => grammar::parsed_column(sql@) is None,
            },
    {
        match tokenize(sql) {
            Result::Err(pos) => Result::Err(lex_error(pos)),
            Result::Ok(toks) => {
                proof {
                    assert(toks.deep_view().len() == toks@.len());
                }
                match column_x(&toks, 0) {
                    Option::Some((n, j)) => if j == toks.len() {
                        Result::Ok(n)
                    } else {
                        Result::Err(syntax_error())
                    },
                    Option::None => Result::Err(syntax_error()),
                }
            },
        }
    }

    /// Parses a whole text as a result-column list (or the `*` wildcard).
    pub fn parse_columns(sql: &str) -> (r: Result<Vec<AstNode>, ParseError>)
        ensures
            match r {
                Result::Ok(v) => grammar::parsed_columns(sql@) == Option::Some(v.deep_view()),
                Result::Err(_) => grammar::parsed_columns(sql@) is None,
            },
    {
        match tokenize(sql) {
            Result::Err(pos) => Result::Err(lex_error(pos)),
            Result::Ok(toks) => {
                proof {
                    assert(toks.deep_view().len() == toks@.len());
                }
                match columns_x(&toks, 0) {
                    Option::Some((v, j)) => if j == toks.len() {
                        Result::Ok(v)
                    } else {
                        Result::Err(syntax_error())
                    },
                    Option::None => Result::Err(syntax_error()),
                }
            },
        }
    }

    /// Parses a whole text as one join clause.
    pub fn parse_join_clause(sql: &str) -> (r: Result<AstNode, ParseError>)
        ensures
            match r {
                Result::Ok(n) => grammar::parsed_join_clause(sql@) == Option::Some(n@),
                Result::Err(_) => grammar::parsed_join_clause(sql@) is None,
            },
    {
        match tokenize(sql) {
            Result::Err(pos) => Result::Err(lex_error(pos)),
            Result::Ok(toks) => {
                proof {
                    assert(toks.deep_view().len() == toks@.len());
                }
                match join_clause_x(&toks, 0) {
                    Option::Some((n, j)) => if j == toks.len() {
                        Result::Ok(n)
                    } else {
                        Result::Err(syntax_error())
                    },
                    Option::None => Result::Err(syntax_error()),
                }
            },
        }
    }

    /// Parses a whole text as one join type.
    pub fn parse_join_type(sql: &str) -> (r: Result<AstNode, ParseError>)
        ensures
            match r {
                Result::Ok(n) => grammar::parsed_join_type(sql@) == Option::Some(n@),
                Result::Err(_) => grammar::parsed_join_type(sql@) is None,
            },
    {
        match tokenize(sql) {
            Result::Err(pos) => Result::Err(lex_error(pos)),
            Result::Ok(toks) => {
                proof {
                    assert(toks.deep_view().len() == toks@.len());
                }
                match join_type_x(&toks, 0) {
                    Option::Some((n, j)) => if j == toks.len() {
                        Result::Ok(n)
                    } else {
                        Result::Err(syntax_error())
                    },
                    Option::None => Result::Err(syntax_error()),
                }
            },
        }
    }

    /// Parses a whole text as one join constraint.
    pub fn parse_join_constraint(sql: &str) -> (r: Result<AstNode, ParseError>)
        ensures
            match r {
                Result::Ok(n) => grammar::parsed_join_constraint(sql@) == Option::Some(n@),
                Result::Err(_) => grammar::parsed_join_constraint(sql@) is None,
            },
    {
        match tokenize(sql) {
            Result::Err(pos) => Result::Err(lex_error(pos)),
            Result::Ok(toks) => {
                proof {
                    assert(toks.deep_view().len() == toks@.len());
                }
                match join_constraint_x(&toks, 0) {
                    Option::Some((n, j)) => if j == toks.len() {
                        Result::Ok(n)
                    } else {
                        Result::Err(syntax_error())
                    },
                    Option::None => Result::Err(syntax_error()),
                }
            },
        }
    }

    /// Parses a whole text as one identifier.
    pub fn parse_identifier(sql: &str) -> (r: Result<AstNode, ParseError>)
        ensures
            match r {
                Result::Ok(n) => grammar::parsed_identifier(sql@) == Option::Some(n@),
                Result::Err(_) => grammar::parsed_identifier(sql@) is None,
            },
    {
        match tokenize(sql) {
            Result::Err(pos) => Result::Err(lex_error(pos)),
            Result::Ok(toks) => {
                proof {
                    assert(toks.deep_view().len() == toks@.len());
                }
                if toks.len() >= 1 {
                    let head = match &toks[0] {
                        Token::Word { s } => Option::Some(AstNode::Identifier { s: s.clone() }),
                        _ => Option::None,
                    };
                    match head {
                        Option::Some(n) => if toks.len() == 1 {
                            Result::Ok(n)
                        } else {
                            Result::Err(syntax_error())
                        },
                        Option::None => Result::Err(syntax_error()),
                    }
                } else {
                    Result::Err(syntax_error())
                }
            },
        }
    }

    /// Parses a whole text as one possibly qualified identifier.
    pub fn parse_qualified_identifier(sql: &str) -> (r: Result<AstNode, ParseError>)
        ensures
            match r {
                Result::Ok(n) => grammar::parsed_qualified_identifier(sql@) == Option::Some(n@),
                Result::Err(_) => grammar::parsed_qualified_identifier(sql@) is None,
            },
    {
        match tokenize(sql) {
            Result::Err(pos) => Result::Err(lex_error(pos)),
            Result::Ok(toks) => {
                proof {
                    assert(toks.deep_view().len() == toks@.len());
                }
                match qualified_identifier_x(&toks, 0) {
                    Option::Some((n, j)) => if j == toks.len() {
                        Result::Ok(n)
                    } else {
                        Result::Err(syntax_error())
                    },
                    Option::None => Result::Err(syntax_error()),
                }
            },
        }
    }

    /// Parses a whole text as one common-table-expression clause.
    pub fn parse_with_clause(sql: &str) -> (r: Result<AstNode, ParseError>)
        ensures
            match r {
                Result::Ok(n) => grammar::parsed_with_clause(sql@) == Option::Some(n@),
                Result::Err(_) => grammar::parsed_with_clause(sql@) is None,
            },
    {
        match tokenize(sql) {
            Result::Err(pos) => Result::Err(lex_error(pos)),
            Result::Ok(toks) => {
                proof {
                    assert(toks.deep_view().len() == toks@.len());
                }
                match with_clause_x(&toks, 0) {
                    Option::Some((n, j)) => if j == toks.len() {
                        Result::Ok(n)
                    } else {
                        Result::Err(syntax_error())
                    },
                    Option::None => Result::Err(syntax_error()),
                }
            },
        }
    }

    /// Parses a whole text as one `WHERE` clause; the result is the
    /// clause's expression.
    pub fn parse_where_clause(sql: &str) -> (r: Result<AstNode, ParseError>)
        ensures
            match r {
                Result::Ok(n) => grammar::parsed_where_clause(sql@) == Option::Some(n@),
                Result::Err(_) => grammar::parsed_where_clause(sql@) is None,
            },
    {
        match tokenize(sql) {
            Result::Err(pos) => Result::Err(lex_error(pos)),
            Result::Ok(toks) => {
                proof {
                    assert(toks.deep_view().len() == toks@.len());
                }
                match where_clause_x(&toks, 0) {
                    Option::Some((n, j)) => if j == toks.len() {
                        Result::Ok(n)
                    } else {
                        Result::Err(syntax_error())
                    },
                    Option::None => Result::Err(syntax_error()),
                }
            },
        }
    }

    /// Parses a whole text as one select statement.
    pub fn parse_select_statement(sql: &str) -> (r: Result<AstNode, ParseError>)
        ensures
            match r {
                Result::Ok(n) => grammar::parsed_statement(sql@) == Option::Some(n@),
                Result::Err(_) => grammar::parsed_statement(sql@) is None,
            },
    {
        match tokenize(sql) {
            Result::Err(pos) => Result::Err(lex_error(pos)),
            Result::Ok(toks) => {
                proof {
                    assert(toks.deep_view().len() == toks@.len());
                }
                match select_statement_x(&toks, 0) {
                    Option::Some((n, j)) => if j == toks.len() {
                        Result::Ok(n)
                    } else {
                        Result::Err(syntax_error())
                    },
                    Option::None => Result::Err(syntax_error()),
                }
            },
        }
    }
}

/// Parses one SQL statement: the finished tree on success, or a structured
/// failure.  Parsing is a single pass with no side effects; the result is
/// exactly what the grammar denotes for the text, and an error comes exactly
/// when the grammar denotes nothing.
pub fn parse(sql: &str) -> (r: Result<AstNode, ParseError>)
    ensures
        match r {
            Result::Ok(n) => grammar::parsed_statement(sql@) == Option::Some(n@),
            Result::Err(_) => grammar::parsed_statement(sql@) is None,
        },
{
    SqlParser::parse_select_statement(sql)
}

} // verus!

//! The syntax grammar, stated declaratively: one specification function per
//! production, each mapping a token sequence and a start position to the
//! denoted tree and the position after it, or to `None` when the production
//! does not match there.  Alternatives are ordered; the first that matches
//! wins, as in a parsing-expression grammar.
//!
//! The executable parser in `parser` is proved to return, for every rule,
//! exactly what these functions denote.

use vstd::prelude::*;

use crate::ast::AstView;
use crate::ast::Interval;
use crate::ast::Operation;
use crate::ast::SelectMode;
use crate::ast::Sign;
use crate::chars::upper_seq;
use crate::climb::climbed;
use crate::lexer::TokView;
use crate::lexer::is_kw;
use crate::lexer::is_reserved;
use crate::lexer::lex;

verus! {

/// Bounds a sub-parse: the result stands only if the parse advanced and
/// stayed inside the input.  Every production consumes at least one token,
/// so the check never rejects a real parse; it makes progress syntactically
/// evident to the termination checker.
pub open spec fn step(r: Option<(AstView, int)>, lo: int, hi: nat) -> Option<(AstView, int)> {
    match r {
        Option::None => Option::None,
        Option::Some((v, j)) => if lo < j <= hi {
            Option::Some((v, j))
        } else {
            Option::None
        },
    }
}

/// The binary operator denoted by a token, if any.
pub open spec fn binop_of(t: TokView) -> Option<Operation> {
    match t {
        TokView::Star => Option::Some(Operation::Multiply),
        TokView::Slash => Option::Some(Operation::Divide),
        TokView::Plus => Option::Some(Operation::Add),
        TokView::Minus => Option::Some(Operation::Subtract),
        TokView::Concat => Option::Some(Operation::Concat),
        TokView::EqOp => Option::Some(Operation::Equal),
        TokView::NeOp => Option::Some(Operation::NotEqual),
        TokView::GtOp => Option::Some(Operation::GreaterThan),
        TokView::GeOp => Option::Some(Operation::GreaterOrEqualThan),
        TokView::LtOp => Option::Some(Operation::LessThan),
        TokView::LeOp => Option::Some(Operation::LessOrEqualThan),
        TokView::Word { s: w } => if upper_seq(w) == "AND"@ {
            Option::Some(Operation::And)
        } else if upper_seq(w) == "OR"@ {
            Option::Some(Operation::Or)
        } else {
            Option::None
        },
        _ => Option::None,
    }
}

/// The interval period denoted by a word, if any.
pub open spec fn period_of(w: Seq<char>) -> Option<Interval> {
    let u = upper_seq(w);
    if u == "YEAR"@ {
        Option::Some(Interval::Year)
    } else if u == "MONTH"@ {
        Option::Some(Interval::Month)
    } else if u == "DAY"@ {
        Option::Some(Interval::Day)
    } else if u == "HOUR"@ {
        Option::Some(Interval::Hour)
    } else if u == "MINUTE"@ {
        Option::Some(Interval::Minute)
    } else if u == "SECOND"@ {
        Option::Some(Interval::Second)
    } else {
        Option::None
    }
}

/// Whether the period belongs to the year-month family.
pub open spec fn is_year_month(p: Interval) -> bool {
    p == Interval::Year || p == Interval::Month
}

/// Granularity within the day-to-second family; a larger number is finer.
pub open spec fn day_second_rank(p: Interval) -> int {
    match p {
        Interval::Day => 0,
        Interval::Hour => 1,
        Interval::Minute => 2,
        Interval::Second => 3,
        _ => 0,
    }
}

/// A conversion period is admissible for a base period when the two stay in
/// one family: within year-month it must be the other of the pair, within
/// day-to-second it must be of equal or finer granularity.
pub open spec fn conversion_ok(period: Interval, conv: Interval) -> bool {
    if is_year_month(period) {
        is_year_month(conv) && conv != period
    } else {
        !is_year_month(conv) && day_second_rank(conv) >= day_second_rank(period)
    }
}

/// `identifier`: a single word.
pub open spec fn identifier(s: Seq<TokView>, i: int) -> Option<(AstView, int)> {
    if i < s.len() {
        match s[i] {
            TokView::Word { s: w } => Option::Some((AstView::Identifier { s: w }, i + 1)),
            _ => Option::None,
        }
    } else {
        Option::None
    }
}

/// The `.`-separated words that continue a qualified identifier, already as
/// `Identifier` views.
pub open spec fn qual_tail(s: Seq<TokView>, i: int) -> (Seq<AstView>, int)
    decreases s.len() - i, 0int, when 0 <= i <= s.len()
{
    if i + 1 < s.len() && s[i] is Dot {
        match s[i + 1] {
            TokView::Word { s: w } => {
                let r = qual_tail(s, i + 2);
                (seq![AstView::Identifier { s: w }] + r.0, r.1)
            },
            _ => (Seq::empty(), i),
        }
    } else {
        (Seq::empty(), i)
    }
}

/// `qualified_identifier`: one word, or several separated by `.`.  A single
/// name denotes a plain `Identifier`; a dotted one denotes a
/// `QualifiedIdentifier` over the parts.
pub open spec fn qualified_identifier(s: Seq<TokView>, i: int) -> Option<(AstView, int)>
    decreases s.len() - i, 1int, when 0 <= i <= s.len()
{
    if i < s.len() {
        match s[i] {
            TokView::Word { s: w } => {
                let r = qual_tail(s, i + 1);
                if r.0.len() == 0 {
                    Option::Some((AstView::Identifier { s: w }, i + 1))
                } else {
                    Option::Some(
                        (
                            AstView::QualifiedIdentifier {
                                s: seq![AstView::Identifier { s: w }] + r.0,
                            },
                            r.1,
                        ),
                    )
                }
            },
            _ => Option::None,
        }
    } else {
        Option::None
    }
}

/// An unsigned literal: a number, a string, or a boolean word.  Numeric and
/// string literals keep their source text verbatim.
pub open spec fn literal_unsigned(s: Seq<TokView>, i: int) -> Option<(AstView, int)> {
    if i < s.len() {
        match s[i] {
            TokView::Int { s: t } => Option::Some((AstView::IntegerLiteral { s: t }, i + 1)),
            TokView::Dec { s: t } => Option::Some((AstView::DecimalLiteral { s: t }, i + 1)),
            TokView::Float { s: t } => Option::Some((AstView::FloatLiteral { s: t }, i + 1)),
            TokView::Str { s: t } => Option::Some((AstView::StringLiteral { s: t }, i + 1)),
            TokView::Word { s: w } => if upper_seq(w) == "TRUE"@ || upper_seq(w) == "FALSE"@ {
                Option::Some((AstView::BooleanLiteral { s: w }, i + 1))
            } else {
                Option::None
            },
            _ => Option::None,
        }
    } else {
        Option::None
    }
}

/// `literal_value`: an unsigned literal, or a numeric literal with a leading
/// sign, whose text keeps the sign.
pub open spec fn literal_value(s: Seq<TokView>, i: int) -> Option<(AstView, int)> {
    if i + 1 < s.len() && (s[i] is Plus || s[i] is Minus) {
        let sign = if s[i] is Plus {
            seq!['+']
        } else {
            seq!['-']
        };
        match s[i + 1] {
            TokView::Int { s: t } => Option::Some((AstView::IntegerLiteral { s: sign + t }, i + 2)),
            TokView::Dec { s: t } => Option::Some((AstView::DecimalLiteral { s: sign + t }, i + 2)),
            TokView::Float { s: t } => Option::Some(
                (AstView::FloatLiteral { s: sign + t }, i + 2),
            ),
            _ => literal_unsigned(s, i),
        }
    } else {
        literal_unsigned(s, i)
    }
}

/// `interval_literal`: `INTERVAL '<magnitude>' <period>`, an optional
/// parenthesized precision (two integers only for `SECOND`), and an optional
/// `TO <period>` conversion within the same family, itself followed by a
/// parenthesized precision only when converting to `SECOND`.
pub open spec fn interval_literal(s: Seq<TokView>, i: int) -> Option<(AstView, int)> {
    if i + 2 < s.len() && is_kw(s[i], "INTERVAL"@) {
        match (s[i + 1], s[i + 2]) {
            (TokView::Str { s: m }, TokView::Word { s: pw }) => match period_of(pw) {
                Option::None => Option::None,
                Option::Some(period) => {
                    let magnitude = AstView::StringLiteral { s: m };
                    let j = i + 3;
                    // the optional precision
                    let pr = interval_precision(s, j, period);
                    match pr {
                        Option::None => Option::None,
                        Option::Some((precision, k)) => {
                            if k < s.len() && is_kw(s[k], "TO"@) {
                                if k + 1 < s.len() {
                                    match s[k + 1] {
                                        TokView::Word { s: cw } => match period_of(cw) {
                                            Option::None => Option::None,
                                            Option::Some(conv) => if conversion_ok(period, conv) {
                                                let cp = conversion_precision(s, k + 2, conv);
                                                match cp {
                                                    Option::None => Option::None,
                                                    Option::Some((convert_precision, m2)) => {
                                                        Option::Some(
                                                            (
                                                                AstView::IntervalLiteral {
                                                                    interval: Box::new(magnitude),
                                                                    period,
                                                                    precision,
                                                                    convert_to: Option::Some(conv),
                                                                    convert_precision,
                                                                },
                                                                m2,
                                                            ),
                                                        )
                                                    },
                                                }
                                            } else {
                                                Option::None
                                            },
                                        },
                                        _ => Option::None,
                                    }
                                } else {
                                    Option::None
                                }
                            } else {
                                Option::Some(
                                    (
                                        AstView::IntervalLiteral {
                                            interval: Box::new(magnitude),
                                            period,
                                            precision,
                                            convert_to: Option::None,
                                            convert_precision: Option::None,
                                        },
                                        k,
                                    ),
                                )
                            }
                        },
                    }
                },
            },
            _ => Option::None,
        }
    } else {
        Option::None
    }
}

/// The optional parenthesized precision of an interval period: `(p)` for
/// any period, `(p, q)` only when the period is `SECOND`.  Yields the
/// precision entries and the position after them; yields `None` when a
/// malformed precision follows.
pub open spec fn interval_precision(s: Seq<TokView>, i: int, period: Interval) -> Option<(
    Seq<AstView>,
    int,
)> {
    if i < s.len() && s[i] is LParen {
        if i + 1 < s.len() {
            match s[i + 1] {
                TokView::Int { s: p1 } => {
                    if i + 2 < s.len() && s[i + 2] is RParen {
                        Option::Some((seq![AstView::IntegerLiteral { s: p1 }], i + 3))
                    } else if i + 4 < s.len() && s[i + 2] is Comma && s[i + 4] is RParen && period
                        == Interval::Second {
                        match s[i + 3] {
                            TokView::Int { s: p2 } => Option::Some(
                                (
                                    seq![
                                        AstView::IntegerLiteral { s: p1 },
                                        AstView::IntegerLiteral { s: p2 },
                                    ],
                                    i + 5,
                                ),
                            ),
                            _ => Option::None,
                        }
                    } else {
                        Option::None
                    }
                },
                _ => Option::None,
            }
        } else {
            Option::None
        }
    } else {
        Option::Some((Seq::empty(), i))
    }
}

/// The optional parenthesized precision after a conversion period: consumed
/// only when the conversion is to `SECOND` and `(q)` follows.
pub open spec fn conversion_precision(s: Seq<TokView>, i: int, conv: Interval) -> Option<(
    Option<Box<AstView>>,
    int,
)> {
    if conv == Interval::Second && i + 2 < s.len() && s[i] is LParen && s[i + 2] is RParen {
        match s[i + 1] {
            TokView::Int { s: q } => Option::Some(
                (Option::Some(Box::new(AstView::IntegerLiteral { s: q })), i + 3),
            ),
            _ => Option::None,
        }
    } else {
        Option::Some((Option::None, i))
    }
}

/// A comma-separated list of expressions, at least one.
pub open spec fn expr_list(s: Seq<TokView>, i: int) -> Option<(Seq<AstView>, int)>
    decreases s.len() - i, 13int, when 0 <= i <= s.len()
{
    match step(expression(s, i), i, s.len()) {
        Option::None => Option::None,
        Option::Some((e, j)) => {
            if j < s.len() && s[j] is Comma {
                match expr_list(s, j + 1) {
                    Option::None => Option::None,
                    Option::Some((es, k)) => Option::Some((seq![e] + es, k)),
                }
            } else {
                Option::Some((seq![e], j))
            }
        },
    }
}

/// A comma-separated list of expressions inside parentheses; the position
/// `i` is at the opening parenthesis.
pub open spec fn paren_expr_list(s: Seq<TokView>, i: int) -> Option<(Seq<AstView>, int)>
    decreases s.len() - i, 6int, when 0 <= i <= s.len()
{
    if i < s.len() && s[i] is LParen {
        match expr_list(s, i + 1) {
            Option::None => Option::None,
            Option::Some((es, j)) => if i + 1 <= j <= s.len() && j < s.len() && s[j] is RParen {
                Option::Some((es, j + 1))
            } else {
                Option::None
            },
        }
    } else {
        Option::None
    }
}

/// The optional `ALL` or `DISTINCT` mode word of an aggregate call, as a
/// `SelectMode` node, defaulting to `All`.
pub open spec fn aggregate_mode(s: Seq<TokView>, i: int) -> (SelectMode, int) {
    if i < s.len() && is_kw(s[i], "ALL"@) {
        (SelectMode::All, i + 1)
    } else if i < s.len() && is_kw(s[i], "DISTINCT"@) {
        (SelectMode::Distinct, i + 1)
    } else {
        (SelectMode::All, i)
    }
}

/// `MAX`, `MIN` and `SUM` share one shape: `( [ALL|DISTINCT] expression )`.
pub open spec fn aggregate_body(s: Seq<TokView>, i: int) -> Option<((SelectMode, AstView), int)>
    decreases s.len() - i, 6int, when 0 <= i <= s.len()
{
    if i < s.len() && s[i] is LParen {
        let m = aggregate_mode(s, i + 1);
        match step(expression(s, m.1), i, s.len()) {
            Option::None => Option::None,
            Option::Some((e, j)) => if j < s.len() && s[j] is RParen {
                Option::Some(((m.0, e), j + 1))
            } else {
                Option::None
            },
        }
    } else {
        Option::None
    }
}

/// The argument list of `COUNT`: `*`, or an optional mode followed by either
/// a parenthesized column list or a single expression.
pub open spec fn count_body(s: Seq<TokView>, i: int) -> Option<((SelectMode, Seq<AstView>), int)>
    decreases s.len() - i, 6int, when 0 <= i <= s.len()
{
    if i < s.len() && s[i] is LParen {
        if i + 2 < s.len() && s[i + 1] is Star && s[i + 2] is RParen {
            Option::Some(((SelectMode::All, seq![AstView::AllColumns]), i + 3))
        } else {
            let m = aggregate_mode(s, i + 1);
            if m.1 < s.len() && s[m.1] is LParen {
                match paren_expr_list(s, m.1) {
                    Option::None => Option::None,
                    Option::Some((es, j)) => if i < j <= s.len() && j < s.len() && s[j] is RParen {
                        Option::Some(((m.0, es), j + 1))
                    } else {
                        Option::None
                    },
                }
            } else {
                match step(expression(s, m.1), i, s.len()) {
                    Option::None => Option::None,
                    Option::Some((e, j)) => if j < s.len() && s[j] is RParen {
                        Option::Some(((m.0, seq![e]), j + 1))
                    } else {
                        Option::None
                    },
                }
            }
        }
    } else {
        Option::None
    }
}

/// The `WHEN ... THEN ...` clauses of a case expression, at least one.
pub open spec fn when_chain(s: Seq<TokView>, i: int) -> Option<(Seq<AstView>, int)>
    decreases s.len() - i, 5int, when 0 <= i <= s.len()
{
    if i < s.len() && is_kw(s[i], "WHEN"@) {
        match step(expression(s, i + 1), i, s.len()) {
            Option::None => Option::None,
            Option::Some((g, j)) => if j < s.len() && is_kw(s[j], "THEN"@) {
                match step(expression(s, j + 1), j, s.len()) {
                    Option::None => Option::None,
                    Option::Some((b, k)) => {
                        let clause = AstView::WhenClause {
                            guard: Box::new(g),
                            body: Box::new(b),
                        };
                        if k < s.len() && is_kw(s[k], "WHEN"@) {
                            match when_chain(s, k) {
                                Option::None => Option::None,
                                Option::Some((cs, m)) => Option::Some((seq![clause] + cs, m)),
                            }
                        } else {
                            Option::Some((seq![clause], k))
                        }
                    },
                }
            } else {
                Option::None
            },
        }
    } else {
        Option::None
    }
}

/// `case_expression`: `CASE [scrutinee] WHEN ... THEN ... [ELSE ...] END`.
/// A scrutinee before the first `WHEN` makes the simple form; its absence
/// makes the searched form.
pub open spec fn case_expression(s: Seq<TokView>, i: int) -> Option<(AstView, int)>
    decreases s.len() - i, 6int, when 0 <= i <= s.len()
{
    if i < s.len() && is_kw(s[i], "CASE"@) {
        let scrut = if i + 1 < s.len() && !is_kw(s[i + 1], "WHEN"@) {
            match step(expression(s, i + 1), i, s.len()) {
                Option::None => Option::None,
                Option::Some((e, j)) => Option::Some((Option::Some(Box::new(e)), j)),
            }
        } else {
            Option::Some((Option::None, i + 1))
        };
        match scrut {
            Option::None => Option::None,
            Option::Some((scrutinee, j)) => if i < j <= s.len() {
                match when_chain(s, j) {
                    Option::None => Option::None,
                    Option::Some((whens, k)) => if i < k <= s.len() {
                        let els = if k < s.len() && is_kw(s[k], "ELSE"@) {
                            match step(expression(s, k + 1), k, s.len()) {
                                Option::None => Option::None,
                                Option::Some((e, m)) => Option::Some(
                                    (Option::Some(Box::new(e)), m),
                                ),
                            }
                        } else {
                            Option::Some((Option::None, k))
                        };
                        match els {
                            Option::None => Option::None,
                            Option::Some((else_expr, m)) => if k <= m <= s.len() && m < s.len()
                                && is_kw(s[m], "END"@) {
                                Option::Some(
                                    (
                                        AstView::CaseExpression {
                                            expr: scrutinee,
                                            when_expr: whens,
                                            else_expr,
                                        },
                                        m + 1,
                                    ),
                                )
                            } else {
                                Option::None
                            },
                        }
                    } else {
                        Option::None
                    },
                }
            } else {
                Option::None
            },
        }
    } else {
        Option::None
    }
}

/// Whether the word at `i` is the given keyword directly followed by an
/// opening parenthesis — the shape that commits to a function call.
pub open spec fn kw_call(s: Seq<TokView>, i: int, w: Seq<char>) -> bool {
    i + 1 < s.len() && is_kw(s[i], w) && s[i + 1] is LParen
}

/// A function call of known or unknown name, `DATE` shorthand included.
/// Unrecognized names never fail: they fall through to `UnknownFunction`
/// with the name and arguments kept unchanged.
pub open spec fn function_expression(s: Seq<TokView>, i: int) -> Option<(AstView, int)>
    decreases s.len() - i, 7int, when 0 <= i <= s.len()
{
    if kw_call(s, i, "COALESCE"@) {
        match paren_expr_list(s, i + 1) {
            Option::None => Option::None,
            Option::Some((es, j)) => Option::Some((AstView::CoalesceFunction { exprs: es }, j)),
        }
    } else if kw_call(s, i, "CONCAT"@) {
        match paren_expr_list(s, i + 1) {
            Option::None => Option::None,
            Option::Some((es, j)) => Option::Some((AstView::ConcatFunction { exprs: es }, j)),
        }
    } else if kw_call(s, i, "CAST"@) {
        match step(expression(s, i + 2), i, s.len()) {
            Option::None => Option::None,
            Option::Some((e, j)) => if j < s.len() && is_kw(s[j], "AS"@) {
                match step(data_type(s, j + 1), j, s.len()) {
                    Option::None => Option::None,
                    Option::Some((dt, k)) => if k < s.len() && s[k] is RParen {
                        Option::Some(
                            (
                                AstView::CastFunction {
                                    expr: Box::new(e),
                                    data_type: Box::new(dt),
                                },
                                k + 1,
                            ),
                        )
                    } else {
                        Option::None
                    },
                }
            } else {
                Option::None
            },
        }
    } else if kw_call(s, i, "REPLACE"@) {
        match paren_expr_list(s, i + 1) {
            Option::None => Option::None,
            Option::Some((es, j)) => if es.len() == 2 {
                Option::Some(
                    (
                        AstView::ReplaceFunction {
                            string: Box::new(es[0]),
                            search_string: Box::new(es[1]),
                            replace_string: Option::None,
                        },
                        j,
                    ),
                )
            } else if es.len() == 3 {
                Option::Some(
                    (
                        AstView::ReplaceFunction {
                            string: Box::new(es[0]),
                            search_string: Box::new(es[1]),
                            replace_string: Option::Some(Box::new(es[2])),
                        },
                        j,
                    ),
                )
            } else {
                Option::None
            },
        }
    } else if kw_call(s, i, "SUBSTRING"@) || kw_call(s, i, "SUBSTR"@) {
        substring_body(s, i + 1)
    } else if kw_call(s, i, "TO_DATE"@) {
        match paren_expr_list(s, i + 1) {
            Option::None => Option::None,
            Option::Some((es, j)) => if es.len() == 1 {
                Option::Some(
                    (
                        AstView::ToDateFunction {
                            string: Box::new(es[0]),
                            format: Option::None,
                        },
                        j,
                    ),
                )
            } else if es.len() == 2 {
                Option::Some(
                    (
                        AstView::ToDateFunction {
                            string: Box::new(es[0]),
                            format: Option::Some(Box::new(es[1])),
                        },
                        j,
                    ),
                )
            } else {
                Option::None
            },
        }
    } else if kw_call(s, i, "RIGHT"@) {
        match paren_expr_list(s, i + 1) {
            Option::None => Option::None,
            Option::Some((es, j)) => if es.len() == 2 {
                Option::Some(
                    (
                        AstView::RightFunction {
                            string: Box::new(es[0]),
                            length: Box::new(es[1]),
                        },
                        j,
                    ),
                )
            } else {
                Option::None
            },
        }
    } else if kw_call(s, i, "POWER"@) {
        match paren_expr_list(s, i + 1) {
            Option::None => Option::None,
            Option::Some((es, j)) => if es.len() == 2 {
                Option::Some(
                    (
                        AstView::PowerFunction {
                            base: Box::new(es[0]),
                            exponent: Box::new(es[1]),
                        },
                        j,
                    ),
                )
            } else {
                Option::None
            },
        }
    } else if kw_call(s, i, "DATE_TRUNC"@) {
        match paren_expr_list(s, i + 1) {
            Option::None => Option::None,
            Option::Some((es, j)) => if es.len() == 2 {
                Option::Some(
                    (
                        AstView::DateTruncFunction {
                            format: Box::new(es[0]),
                            datetime: Box::new(es[1]),
                        },
                        j,
                    ),
                )
            } else {
                Option::None
            },
        }
    } else if kw_call(s, i, "MONTHS_BETWEEN"@) {
        match paren_expr_list(s, i + 1) {
            Option::None => Option::None,
            Option::Some((es, j)) => if es.len() == 2 {
                Option::Some(
                    (
                        AstView::MonthsBetweenFunction {
                            datetime1: Box::new(es[0]),
                            datetime2: Box::new(es[1]),
                        },
                        j,
                    ),
                )
            } else {
                Option::None
            },
        }
    } else if kw_call(s, i, "MAX"@) {
        match aggregate_body(s, i + 1) {
            Option::None => Option::None,
            Option::Some(((m, e), j)) => Option::Some(
                (
                    AstView::MaxFunction {
                        mode: Box::new(AstView::SelectMode { mode: m }),
                        expr: Box::new(e),
                    },
                    j,
                ),
            ),
        }
    } else if kw_call(s, i, "MIN"@) {
        match aggregate_body(s, i + 1) {
            Option::None => Option::None,
            Option::Some(((m, e), j)) => Option::Some(
                (
                    AstView::MinFunction {
                        mode: Box::new(AstView::SelectMode { mode: m }),
                        expr: Box::new(e),
                    },
                    j,
                ),
            ),
        }
    } else if kw_call(s, i, "SUM"@) {
        match aggregate_body(s, i + 1) {
            Option::None => Option::None,
            Option::Some(((m, e), j)) => Option::Some(
                (
                    AstView::SumFunction {
                        mode: Box::new(AstView::SelectMode { mode: m }),
                        expr: Box::new(e),
                    },
                    j,
                ),
            ),
        }
    } else if kw_call(s, i, "COUNT"@) {
        match count_body(s, i + 1) {
            Option::None => Option::None,
            Option::Some(((m, cols), j)) => Option::Some(
                (
                    AstView::CountFunction {
                        mode: Box::new(AstView::SelectMode { mode: m }),
                        columns: cols,
                    },
                    j,
                ),
            ),
        }
    } else if i < s.len() && is_kw(s[i], "DATE"@) && !(i + 1 < s.len() && s[i + 1] is LParen) {
        match step(operand(s, i + 1), i, s.len()) {
            Option::None => Option::None,
            Option::Some((e, j)) => Option::Some(
                (
                    AstView::ToDateFunction { string: Box::new(e), format: Option::None },
                    j,
                ),
            ),
        }
    } else {
        match step(qualified_identifier(s, i), i, s.len()) {
            Option::None => Option::None,
            Option::Some((name, j)) => if j < s.len() && s[j] is LParen {
                match paren_expr_list(s, j) {
                    Option::None => Option::None,
                    Option::Some((es, k)) => Option::Some(
                        (AstView::UnknownFunction { name: Box::new(name), exprs: es }, k),
                    ),
                }
            } else {
                Option::None
            },
        }
    }
}

/// The argument shapes of `SUBSTRING`: `(e1, e2 [, e3])` or
/// `(e1 FROM e2 [FOR e3])`, both denoting the same node.  The position `i`
/// is at the opening parenthesis.
pub open spec fn substring_body(s: Seq<TokView>, i: int) -> Option<(AstView, int)>
    decreases s.len() - i, 6int, when 0 <= i <= s.len()
{
    if i < s.len() && s[i] is LParen {
        match step(expression(s, i + 1), i, s.len()) {
            Option::None => Option::None,
            Option::Some((e1, j)) => if j < s.len() && is_kw(s[j], "FROM"@) {
                match step(expression(s, j + 1), j, s.len()) {
                    Option::None => Option::None,
                    Option::Some((e2, k)) => if k < s.len() && is_kw(s[k], "FOR"@) {
                        match step(expression(s, k + 1), k, s.len()) {
                            Option::None => Option::None,
                            Option::Some((e3, m)) => if m < s.len() && s[m] is RParen {
                                Option::Some(
                                    (
                                        AstView::SubstringFunction {
                                            string: Box::new(e1),
                                            position: Box::new(e2),
                                            length: Option::Some(Box::new(e3)),
                                        },
                                        m + 1,
                                    ),
                                )
                            } else {
                                Option::None
                            },
                        }
                    } else if k < s.len() && s[k] is RParen {
                        Option::Some(
                            (
                                AstView::SubstringFunction {
                                    string: Box::new(e1),
                                    position: Box::new(e2),
                                    length: Option::None,
                                },
                                k + 1,
                            ),
                        )
                    } else {
                        Option::None
                    },
                }
            } else if j < s.len() && s[j] is Comma {
                match step(expression(s, j + 1), j, s.len()) {
                    Option::None => Option::None,
                    Option::Some((e2, k)) => if k < s.len() && s[k] is Comma {
                        match step(expression(s, k + 1), k, s.len()) {
                            Option::None => Option::None,
                            Option::Some((e3, m)) => if m < s.len() && s[m] is RParen {
                                Option::Some(
                                    (
                                        AstView::SubstringFunction {
                                            string: Box::new(e1),
                                            position: Box::new(e2),
                                            length: Option::Some(Box::new(e3)),
                                        },
                                        m + 1,
                                    ),
                                )
                            } else {
                                Option::None
                            },
                        }
                    } else if k < s.len() && s[k] is RParen {
                        Option::Some(
                            (
                                AstView::SubstringFunction {
                                    string: Box::new(e1),
                                    position: Box::new(e2),
                                    length: Option::None,
                                },
                                k + 1,
                            ),
                        )
                    } else {
                        Option::None
                    },
                }
            } else {
                Option::None
            },
        }
    } else {
        Option::None
    }
}

/// `data_type`: one of the type keywords, `CHAR`, `VARCHAR` and `DECIMAL`
/// carrying their parenthesized size expressions.
pub open spec fn data_type(s: Seq<TokView>, i: int) -> Option<(AstView, int)>
    decreases s.len() - i, 8int, when 0 <= i <= s.len()
{
    if i < s.len() {
        if is_kw(s[i], "BOOLEAN"@) {
            Option::Some((AstView::BooleanType, i + 1))
        } else if is_kw(s[i], "DOUBLE"@) {
            if i + 1 < s.len() && is_kw(s[i + 1], "PRECISION"@) {
                Option::Some((AstView::DoubleType, i + 2))
            } else {
                Option::Some((AstView::DoubleType, i + 1))
            }
        } else if is_kw(s[i], "DATE"@) {
            Option::Some((AstView::DateType, i + 1))
        } else if is_kw(s[i], "TIMESTAMP"@) {
            Option::Some((AstView::TimestampType, i + 1))
        } else if is_kw(s[i], "LOCALTIMESTAMP"@) {
            Option::Some((AstView::LocalTimestampType, i + 1))
        } else if is_kw(s[i], "CHAR"@) {
            match paren_expr_list(s, i + 1) {
                Option::None => Option::None,
                Option::Some((es, j)) => if es.len() == 1 {
                    Option::Some((AstView::CharType { n: Box::new(es[0]) }, j))
                } else {
                    Option::None
                },
            }
        } else if is_kw(s[i], "VARCHAR"@) {
            match paren_expr_list(s, i + 1) {
                Option::None => Option::None,
                Option::Some((es, j)) => if es.len() == 1 {
                    Option::Some((AstView::VarcharType { n: Box::new(es[0]) }, j))
                } else {
                    Option::None
                },
            }
        } else if is_kw(s[i], "DECIMAL"@) {
            match paren_expr_list(s, i + 1) {
                Option::None => Option::None,
                Option::Some((es, j)) => if es.len() == 2 {
                    Option::Some(
                        (
                            AstView::DecimalType {
                                p: Box::new(es[0]),
                                s: Box::new(es[1]),
                            },
                            j,
                        ),
                    )
                } else {
                    Option::None
                },
            }
        } else {
            Option::None
        }
    } else {
        Option::None
    }
}

/// An expression atom: a case expression, an interval literal, a function
/// call, a literal, a signed operand, a parenthesized expression, or a
/// possibly qualified identifier — tried in that order.
pub open spec fn atom(s: Seq<TokView>, i: int) -> Option<(AstView, int)>
    decreases s.len() - i, 9int, when 0 <= i <= s.len()
{
    if i >= s.len() {
        Option::None
    } else if is_kw(s[i], "CASE"@) {
        case_expression(s, i)
    } else if is_kw(s[i], "INTERVAL"@) {
        interval_literal(s, i)
    } else {
        match s[i] {
            TokView::Word { .. } => {
                match function_expression(s, i) {
                    Option::Some(r) => Option::Some(r),
                    Option::None => {
                        match literal_unsigned(s, i) {
                            Option::Some(r) => Option::Some(r),
                            Option::None => qualified_identifier(s, i),
                        }
                    },
                }
            },
            TokView::Int { .. } => literal_unsigned(s, i),
            TokView::Dec { .. } => literal_unsigned(s, i),
            TokView::Float { .. } => literal_unsigned(s, i),
            TokView::Str { .. } => literal_unsigned(s, i),
            TokView::Plus => signed_expression(s, i),
            TokView::Minus => signed_expression(s, i),
            TokView::LParen => {
                match step(expression(s, i + 1), i, s.len()) {
                    Option::None => Option::None,
                    Option::Some((e, j)) => if j < s.len() && s[j] is RParen {
                        Option::Some((e, j + 1))
                    } else {
                        Option::None
                    },
                }
            },
            _ => Option::None,
        }
    }
}

/// A `+` or `-` sign applied to the operand that follows it.
pub open spec fn signed_expression(s: Seq<TokView>, i: int) -> Option<(AstView, int)>
    decreases s.len() - i, 8int, when 0 <= i <= s.len()
{
    if i < s.len() && (s[i] is Plus || s[i] is Minus) {
        let sign = if s[i] is Plus {
            Sign::Positive
        } else {
            Sign::Negative
        };
        match step(operand(s, i + 1), i, s.len()) {
            Option::None => Option::None,
            Option::Some((e, j)) => Option::Some(
                (AstView::SignedExpression { sign, expr: Box::new(e) }, j),
            ),
        }
    } else {
        Option::None
    }
}

/// An operand of the binary-operator chain: an atom, optionally followed by
/// the `IS [NOT] NULL` postfix.
pub open spec fn operand(s: Seq<TokView>, i: int) -> Option<(AstView, int)>
    decreases s.len() - i, 10int, when 0 <= i <= s.len()
{
    match step(atom(s, i), i, s.len()) {
        Option::None => Option::None,
        Option::Some((e, j)) => if j < s.len() && is_kw(s[j], "IS"@) {
            if j + 1 < s.len() && is_kw(s[j + 1], "NULL"@) {
                Option::Some(
                    (AstView::IsNullExpression { expr: Box::new(e), is_null: true }, j + 2),
                )
            } else if j + 2 < s.len() && is_kw(s[j + 1], "NOT"@) && is_kw(s[j + 2], "NULL"@) {
                Option::Some(
                    (AstView::IsNullExpression { expr: Box::new(e), is_null: false }, j + 3),
                )
            } else {
                Option::None
            }
        } else {
            Option::Some((e, j))
        },
    }
}

/// The operator/operand pairs that continue a binary-operator chain.
pub open spec fn expr_chain(s: Seq<TokView>, i: int) -> Option<(Seq<(Operation, AstView)>, int)>
    decreases s.len() - i, 11int, when 0 <= i <= s.len()
{
    if i < s.len() {
        match binop_of(s[i]) {
            Option::None => Option::Some((Seq::empty(), i)),
            Option::Some(op) => match step(operand(s, i + 1), i, s.len()) {
                Option::None => Option::None,
                Option::Some((v, j)) => match expr_chain(s, j) {
                    Option::None => Option::None,
                    Option::Some((ops, k)) => Option::Some((seq![(op, v)] + ops, k)),
                },
            },
        }
    } else {
        Option::Some((Seq::empty(), i))
    }
}

/// `expression`: a flat chain of operands and binary operators, resolved
/// into a tree by the precedence climber.
pub open spec fn expression(s: Seq<TokView>, i: int) -> Option<(AstView, int)>
    decreases s.len() - i, 12int, when 0 <= i <= s.len()
{
    match step(operand(s, i), i, s.len()) {
        Option::None => Option::None,
        Option::Some((first, j)) => match expr_chain(s, j) {
            Option::None => Option::None,
            Option::Some((ops, k)) => Option::Some((climbed(first, ops), k)),
        },
    }
}

/// The optional alias after a column or table expression: a word with `AS`,
/// or a bare word that is not reserved.
pub open spec fn alias_opt(s: Seq<TokView>, i: int) -> (Option<Seq<char>>, int) {
    if i + 1 < s.len() && is_kw(s[i], "AS"@) {
        match s[i + 1] {
            TokView::Word { s: a } => (Option::Some(a), i + 2),
            _ => (Option::None, i),
        }
    } else if i < s.len() {
        match s[i] {
            TokView::Word { s: a } => if !is_reserved(a) {
                (Option::Some(a), i + 1)
            } else {
                (Option::None, i)
            },
            _ => (Option::None, i),
        }
    } else {
        (Option::None, i)
    }
}

/// `column`: `schema.*`, or an expression with an optional alias.
pub open spec fn column(s: Seq<TokView>, i: int) -> Option<(AstView, int)>
    decreases s.len() - i, 13int, when 0 <= i <= s.len()
{
    let star_form = match step(qualified_identifier(s, i), i, s.len()) {
        Option::Some((qi, j)) => if j + 1 < s.len() && s[j] is Dot && s[j + 1] is Star {
            Option::Some((AstView::AllColumnsFrom { schema: Box::new(qi) }, j + 2))
        } else {
            Option::None
        },
        Option::None => Option::None,
    };
    match star_form {
        Option::Some(r) => Option::Some(r),
        Option::None => match step(expression(s, i), i, s.len()) {
            Option::None => Option::None,
            Option::Some((e, j)) => {
                let a = alias_opt(s, j);
                match a.0 {
                    Option::Some(name) => Option::Some(
                        (
                            AstView::NamedColumn {
                                expr: Box::new(e),
                                alias: Option::Some(name),
                            },
                            a.1,
                        ),
                    ),
                    Option::None => Option::Some((e, j)),
                }
            },
        },
    }
}

/// The comma-separated list of result columns, at least one.
pub open spec fn column_list(s: Seq<TokView>, i: int) -> Option<(Seq<AstView>, int)>
    decreases s.len() - i, 14int, when 0 <= i <= s.len()
{
    match step(column(s, i), i, s.len()) {
        Option::None => Option::None,
        Option::Some((c, j)) => {
            if j < s.len() && s[j] is Comma {
                match column_list(s, j + 1) {
                    Option::None => Option::None,
                    Option::Some((cs, k)) => Option::Some((seq![c] + cs, k)),
                }
            } else {
                Option::Some((seq![c], j))
            }
        },
    }
}

/// `columns`: the `*` wildcard, or a list of result columns.
pub open spec fn columns(s: Seq<TokView>, i: int) -> Option<(Seq<AstView>, int)>
    decreases s.len() - i, 15int, when 0 <= i <= s.len()
{
    if i < s.len() && s[i] is Star {
        Option::Some((seq![AstView::AllColumns], i + 1))
    } else {
        column_list(s, i)
    }
}

/// `named_table_expression`: a possibly qualified table name with an
/// optional alias.
pub open spec fn named_table_expression(s: Seq<TokView>, i: int) -> Option<(AstView, int)>
    decreases s.len() - i, 13int, when 0 <= i <= s.len()
{
    match step(qualified_identifier(s, i), i, s.len()) {
        Option::None => Option::None,
        Option::Some((n, j)) => {
            let a = alias_opt(s, j);
            Option::Some((AstView::NamedTableExpression { name: Box::new(n), alias: a.0 }, a.1))
        },
    }
}

/// `join_type`: bare `JOIN` means inner; `LEFT`, `RIGHT` and `FULL` accept
/// an optional `OUTER`.
pub open spec fn join_type(s: Seq<TokView>, i: int) -> Option<(AstView, int)> {
    if i < s.len() && is_kw(s[i], "JOIN"@) {
        Option::Some((AstView::InnerJoin, i + 1))
    } else if i + 1 < s.len() && is_kw(s[i], "INNER"@) && is_kw(s[i + 1], "JOIN"@) {
        Option::Some((AstView::InnerJoin, i + 2))
    } else if i < s.len() && is_kw(s[i], "LEFT"@) {
        outer_join_tail(s, i + 1, AstView::LeftOuterJoin)
    } else if i < s.len() && is_kw(s[i], "RIGHT"@) {
        outer_join_tail(s, i + 1, AstView::RightOuterJoin)
    } else if i < s.len() && is_kw(s[i], "FULL"@) {
        outer_join_tail(s, i + 1, AstView::FullOuterJoin)
    } else {
        Option::None
    }
}

/// `[OUTER] JOIN` after a side keyword.
pub open spec fn outer_join_tail(s: Seq<TokView>, i: int, node: AstView) -> Option<(AstView, int)> {
    if i + 1 < s.len() && is_kw(s[i], "OUTER"@) && is_kw(s[i + 1], "JOIN"@) {
        Option::Some((node, i + 2))
    } else if i < s.len() && is_kw(s[i], "JOIN"@) {
        Option::Some((node, i + 1))
    } else {
        Option::None
    }
}

/// The comma-separated column words of a `USING` constraint, at least one,
/// as `Identifier` views.
pub open spec fn ident_list(s: Seq<TokView>, i: int) -> Option<(Seq<AstView>, int)>
    decreases s.len() - i, 0int, when 0 <= i <= s.len()
{
    if i < s.len() {
        match s[i] {
            TokView::Word { s: w } => {
                let id = AstView::Identifier { s: w };
                if i + 1 < s.len() && s[i + 1] is Comma {
                    match ident_list(s, i + 2) {
                        Option::None => Option::None,
                        Option::Some((ids, j)) => Option::Some((seq![id] + ids, j)),
                    }
                } else {
                    Option::Some((seq![id], i + 1))
                }
            },
            _ => Option::None,
        }
    } else {
        Option::None
    }
}

/// `join_constraint`: `ON` with a boolean expression, or `USING` with a
/// parenthesized column list.
pub open spec fn join_constraint(s: Seq<TokView>, i: int) -> Option<(AstView, int)>
    decreases s.len() - i, 13int, when 0 <= i <= s.len()
{
    if i < s.len() && is_kw(s[i], "ON"@) {
        match step(expression(s, i + 1), i, s.len()) {
            Option::None => Option::None,
            Option::Some((e, j)) => Option::Some(
                (AstView::JoinConstraintOn { expr: Box::new(e) }, j),
            ),
        }
    } else if i + 1 < s.len() && is_kw(s[i], "USING"@) && s[i + 1] is LParen {
        match ident_list(s, i + 2) {
            Option::None => Option::None,
            Option::Some((ids, j)) => if i < j <= s.len() && j < s.len() && s[j] is RParen {
                Option::Some((AstView::JoinConstraintUsing { columns: ids }, j + 1))
            } else {
                Option::None
            },
        }
    } else {
        Option::None
    }
}

/// `join_clause`: a join type, the joined table, and its constraint.
pub open spec fn join_clause(s: Seq<TokView>, i: int) -> Option<(AstView, int)>
    decreases s.len() - i, 14int, when 0 <= i <= s.len()
{
    match step(join_type(s, i), i, s.len()) {
        Option::None => Option::None,
        Option::Some((jt, j)) => match step(named_table_expression(s, j), j, s.len()) {
            Option::None => Option::None,
            Option::Some((te, k)) => match step(join_constraint(s, k), k, s.len()) {
                Option::None => Option::None,
                Option::Some((c, m)) => Option::Some(
                    (
                        AstView::JoinClause {
                            join_type: Box::new(jt),
                            table_expr: Box::new(te),
                            constraint: Box::new(c),
                        },
                        m,
                    ),
                ),
            },
        },
    }
}

/// Whether a join clause starts at `i`.
pub open spec fn at_join(s: Seq<TokView>, i: int) -> bool {
    i < s.len() && (is_kw(s[i], "JOIN"@) || is_kw(s[i], "INNER"@) || is_kw(s[i], "LEFT"@) || is_kw(
        s[i],
        "RIGHT"@,
    ) || is_kw(s[i], "FULL"@))
}

/// What follows the first table expression: further comma-separated tables
/// and join clauses, in source order.
pub open spec fn table_tail(s: Seq<TokView>, i: int) -> Option<(Seq<AstView>, int)>
    decreases s.len() - i, 15int, when 0 <= i <= s.len()
{
    if i < s.len() && s[i] is Comma {
        match step(named_table_expression(s, i + 1), i, s.len()) {
            Option::None => Option::None,
            Option::Some((t, j)) => match table_tail(s, j) {
                Option::None => Option::None,
                Option::Some((ts, k)) => Option::Some((seq![t] + ts, k)),
            },
        }
    } else if at_join(s, i) {
        match step(join_clause(s, i), i, s.len()) {
            Option::None => Option::None,
            Option::Some((jc, j)) => match table_tail(s, j) {
                Option::None => Option::None,
                Option::Some((ts, k)) => Option::Some((seq![jc] + ts, k)),
            },
        }
    } else {
        Option::Some((Seq::empty(), i))
    }
}

/// `table_expressions`: the tables of a `FROM` clause with their joins.
pub open spec fn table_expressions(s: Seq<TokView>, i: int) -> Option<(Seq<AstView>, int)>
    decreases s.len() - i, 16int, when 0 <= i <= s.len()
{
    match step(named_table_expression(s, i), i, s.len()) {
        Option::None => Option::None,
        Option::Some((t, j)) => match table_tail(s, j) {
            Option::None => Option::None,
            Option::Some((ts, k)) => Option::Some((seq![t] + ts, k)),
        },
    }
}

/// `where_clause`: `WHERE` with its boolean expression; the clause denotes
/// the expression itself.
pub open spec fn where_clause(s: Seq<TokView>, i: int) -> Option<(AstView, int)>
    decreases s.len() - i, 13int, when 0 <= i <= s.len()
{
    if i < s.len() && is_kw(s[i], "WHERE"@) {
        step(expression(s, i + 1), i, s.len())
    } else {
        Option::None
    }
}

/// `group_by`: `GROUP BY` with its grouping expressions.  The grammar never
/// fills `having`.
pub open spec fn group_by(s: Seq<TokView>, i: int) -> Option<(AstView, int)>
    decreases s.len() - i, 13int, when 0 <= i <= s.len()
{
    if i + 1 < s.len() && is_kw(s[i], "GROUP"@) && is_kw(s[i + 1], "BY"@) {
        match expr_list(s, i + 2) {
            Option::None => Option::None,
            Option::Some((es, j)) => if i < j <= s.len() {
                Option::Some((AstView::GroupBy { groupings: es, having: Option::None }, j))
            } else {
                Option::None
            },
        }
    } else {
        Option::None
    }
}

/// `with_clause`: `name AS ( select )`; explicit column aliases are not
/// part of the grammar, so the clause's column list is empty.
pub open spec fn with_clause(s: Seq<TokView>, i: int) -> Option<(AstView, int)>
    decreases s.len() - i, 17int, when 0 <= i <= s.len()
{
    if i + 2 < s.len() && is_kw(s[i + 1], "AS"@) && s[i + 2] is LParen {
        match s[i] {
            TokView::Word { s: name } => {
                match step(select_statement(s, i + 3), i + 2, s.len()) {
                    Option::None => Option::None,
                    Option::Some((q, j)) => if j < s.len() && s[j] is RParen {
                        Option::Some(
                            (
                                AstView::WithClause {
                                    identifier: Box::new(AstView::Identifier { s: name }),
                                    columns: Seq::empty(),
                                    query: Box::new(q),
                                },
                                j + 1,
                            ),
                        )
                    } else {
                        Option::None
                    },
                }
            },
            _ => Option::None,
        }
    } else {
        Option::None
    }
}

/// The comma-separated common table expressions after `WITH`, at least one,
/// in source order.
pub open spec fn cte_list(s: Seq<TokView>, i: int) -> Option<(Seq<AstView>, int)>
    decreases s.len() - i, 18int, when 0 <= i <= s.len()
{
    match step(with_clause(s, i), i, s.len()) {
        Option::None => Option::None,
        Option::Some((c, j)) => {
            if j < s.len() && s[j] is Comma {
                match cte_list(s, j + 1) {
                    Option::None => Option::None,
                    Option::Some((cs, k)) => Option::Some((seq![c] + cs, k)),
                }
            } else {
                Option::Some((seq![c], j))
            }
        },
    }
}

/// `select_statement`: an optional `WITH` list, `SELECT`, an optional
/// `ALL`/`DISTINCT` mode defaulting to `All`, the result columns, and the
/// optional `FROM`, `WHERE` and `GROUP BY` clauses.
pub open spec fn select_statement(s: Seq<TokView>, i: int) -> Option<(AstView, int)>
    decreases s.len() - i, 19int, when 0 <= i <= s.len()
{
    let with_part = if i < s.len() && is_kw(s[i], "WITH"@) {
        match cte_list(s, i + 1) {
            Option::None => Option::None,
            Option::Some((cs, j)) => if i < j <= s.len() {
                Option::Some((cs, j))
            } else {
                Option::None
            },
        }
    } else {
        Option::Some((Seq::empty(), i))
    };
    match with_part {
        Option::None => Option::None,
        Option::Some((common, j0)) => if j0 < s.len() && is_kw(s[j0], "SELECT"@) && i <= j0 {
            let mode_part = if j0 + 1 < s.len() && is_kw(s[j0 + 1], "DISTINCT"@) {
                (SelectMode::Distinct, j0 + 2)
            } else if j0 + 1 < s.len() && is_kw(s[j0 + 1], "ALL"@) {
                (SelectMode::All, j0 + 2)
            } else {
                (SelectMode::All, j0 + 1)
            };
            match columns(s, mode_part.1) {
                Option::None => Option::None,
                Option::Some((cols, j1)) => if mode_part.1 <= j1 <= s.len() {
                    let from_part = if j1 < s.len() && is_kw(s[j1], "FROM"@) {
                        match table_expressions(s, j1 + 1) {
                            Option::None => Option::None,
                            Option::Some((ts, j2)) => if j1 < j2 <= s.len() {
                                Option::Some((ts, j2))
                            } else {
                                Option::None
                            },
                        }
                    } else {
                        Option::Some((Seq::empty(), j1))
                    };
                    match from_part {
                        Option::None => Option::None,
                        Option::Some((tables, j2)) => {
                            let where_part = if j2 < s.len() && is_kw(s[j2], "WHERE"@) {
                                match step(where_clause(s, j2), j2, s.len()) {
                                    Option::None => Option::None,
                                    Option::Some((e, j3)) => Option::Some(
                                        (Option::Some(Box::new(e)), j3),
                                    ),
                                }
                            } else {
                                Option::Some((Option::None, j2))
                            };
                            match where_part {
                                Option::None => Option::None,
                                Option::Some((where_expr, j3)) => {
                                    let group_part = if j3 < s.len() && is_kw(s[j3], "GROUP"@) {
                                        match step(group_by(s, j3), j3, s.len()) {
                                            Option::None => Option::None,
                                            Option::Some((g, j4)) => Option::Some(
                                                (Option::Some(Box::new(g)), j4),
                                            ),
                                        }
                                    } else {
                                        Option::Some((Option::None, j3))
                                    };
                                    match group_part {
                                        Option::None => Option::None,
                                        Option::Some((gb, j4)) => Option::Some(
                                            (
                                                AstView::SelectStatement {
                                                    common,
                                                    mode: mode_part.0,
                                                    columns: cols,
                                                    table_exprs: tables,
                                                    where_expr,
                                                    group_by: gb,
                                                },
                                                j4,
                                            ),
                                        ),
                                    }
                                },
                            }
                        },
                    }
                } else {
                    Option::None
                },
            }
        } else {
            Option::None
        },
    }
}

/// A rule applied to a whole token sequence: it must consume every token.
pub open spec fn whole(r: Option<(AstView, int)>, n: int) -> Option<AstView> {
    match r {
        Option::Some((v, j)) => if j == n {
            Option::Some(v)
        } else {
            Option::None
        },
        Option::None => Option::None,
    }
}

/// A list rule applied to a whole token sequence: it must consume every
/// token.
pub open spec fn whole_list(r: Option<(Seq<AstView>, int)>, n: int) -> Option<Seq<AstView>> {
    match r {
        Option::Some((v, j)) => if j == n {
            Option::Some(v)
        } else {
            Option::None
        },
        Option::None => Option::None,
    }
}

/// The statement denoted by a whole source text: its token sequence parsed
/// as one `select_statement` with nothing left over.
pub open spec fn parsed_statement(text: Seq<char>) -> Option<AstView> {
    match lex(text) {
        Option::None => Option::None,
        Option::Some(toks) => whole(select_statement(toks, 0), toks.len() as int),
    }
}

/// The node denoted by a whole source text parsed as one `expression`.
pub open spec fn parsed_expression(text: Seq<char>) -> Option<AstView> {
    match lex(text) {
        Option::None => Option::None,
        Option::Some(toks) => whole(expression(toks, 0), toks.len() as int),
    }
}

/// The node denoted by a whole source text parsed as one `literal_value`.
pub open spec fn parsed_literal_value(text: Seq<char>) -> Option<AstView> {
    match lex(text) {
        Option::None => Option::None,
        Option::Some(toks) => whole(literal_value(toks, 0), toks.len() as int),
    }
}

/// The node denoted by a whole source text parsed as one `data_type`.
pub open spec fn parsed_data_type(text: Seq<char>) -> Option<AstView> {
    match lex(text) {
        Option::None => Option::None,
        Option::Some(toks) => whole(data_type(toks, 0), toks.len() as int),
    }
}

/// The node denoted by a whole source text parsed as one `column`.
pub open spec fn parsed_column(text: Seq<char>) -> Option<AstView> {
    match lex(text) {
        Option::None => Option::None,
        Option::Some(toks) => whole(column(toks, 0), toks.len() as int),
    }
}

/// The column list denoted by a whole source text parsed as `columns`.
pub open spec fn parsed_columns(text: Seq<char>) -> Option<Seq<AstView>> {
    match lex(text) {
        Option::None => Option::None,
        Option::Some(toks) => whole_list(columns(toks, 0), toks.len() as int),
    }
}

/// The node denoted by a whole source text parsed as one `join_clause`.
pub open spec fn parsed_join_clause(text: Seq<char>) -> Option<AstView> {
    match lex(text) {
        Option::None => Option::None,
        Option::Some(toks) => whole(join_clause(toks, 0), toks.len() as int),
    }
}

/// The node denoted by a whole source text parsed as one `join_type`.
pub open spec fn parsed_join_type(text: Seq<char>) -> Option<AstView> {
    match lex(text) {
        Option::None => Option::None,
        Option::Some(toks) => whole(join_type(toks, 0), toks.len() as int),
    }
}

/// The node denoted by a whole source text parsed as one `join_constraint`.
pub open spec fn parsed_join_constraint(text: Seq<char>) -> Option<AstView> {
    match lex(text) {
        Option::None => Option::None,
        Option::Some(toks) => whole(join_constraint(toks, 0), toks.len() as int),
    }
}

/// The node denoted by a whole source text parsed as one `identifier`.
pub open spec fn parsed_identifier(text: Seq<char>) -> Option<AstView> {
    match lex(text) {
        Option::None => Option::None,
        Option::Some(toks) => whole(identifier(toks, 0), toks.len() as int),
    }
}

/// The node denoted by a whole source text parsed as one
/// `qualified_identifier`.
pub open spec fn parsed_qualified_identifier(text: Seq<char>) -> Option<AstView> {
    match lex(text) {
        Option::None => Option::None,
        Option::Some(toks) => whole(qualified_identifier(toks, 0), toks.len() as int),
    }
}

/// The node denoted by a whole source text parsed as one `with_clause`.
pub open spec fn parsed_with_clause(text: Seq<char>) -> Option<AstView> {
    match lex(text) {
        Option::None => Option::None,
        Option::Some(toks) => whole(with_clause(toks, 0), toks.len() as int),
    }
}

/// The node denoted by a whole source text parsed as one `where_clause`.
pub open spec fn parsed_where_clause(text: Seq<char>) -> Option<AstView> {
    match lex(text) {
        Option::None => Option::None,
        Option::Some(toks) => whole(where_clause(toks, 0), toks.len() as int),
    }
}

/// The node denoted by a whole source text parsed as one
/// `interval_literal`.
pub open spec fn parsed_interval_literal(text: Seq<char>) -> Option<AstView> {
    match lex(text) {
        Option::None => Option::None,
        Option::Some(toks) => whole(interval_literal(toks, 0), toks.len() as int),
    }
}

} // verus!

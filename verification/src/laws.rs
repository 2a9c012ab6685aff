//! Laws of the parser, proved once for all inputs: literal round-trips,
//! the unknown-function fallback, and comment idempotence.  The laws about
//! operator precedence and associativity live beside the climber in
//! `climb`.

use vstd::prelude::*;

use crate::ast::AstView;
use crate::chars::is_digit_char;
use crate::chars::is_ident_char;
use crate::chars::is_ident_start_char;
use crate::chars::is_space_char;
use crate::chars::upper_seq;
use crate::grammar;
use crate::lexer::TokView;
use crate::lexer::lex;
use crate::lexer::next_token;
use crate::lexer::scan_digits;
use crate::lexer::scan_ident;
use crate::lexer::scan_to_quote;
use crate::lexer::skip_ws;
use crate::lexer::tokens_from;

verus! {

/// A run of digits scans to its end.
proof fn lemma_scan_digits_run(s: Seq<char>, i: int, e: int)
    requires
        0 <= i <= e <= s.len(),
        forall|k: int| i <= k < e ==> is_digit_char(s[k]),
        e == s.len() || !is_digit_char(s[e]),
    ensures
        scan_digits(s, i) == e,
    decreases e - i,
{
    if i < e {
        lemma_scan_digits_run(s, i + 1, e);
    }
}

/// A run of identifier characters scans to its end.
proof fn lemma_scan_ident_run(s: Seq<char>, i: int, e: int)
    requires
        0 <= i <= e <= s.len(),
        forall|k: int| i <= k < e ==> is_ident_char(s[k]),
        e == s.len() || !is_ident_char(s[e]),
    ensures
        scan_ident(s, i) == e,
    decreases e - i,
{
    if i < e {
        lemma_scan_ident_run(s, i + 1, e);
    }
}

/// A run of non-quote characters scans to the first quote.
proof fn lemma_scan_to_quote_run(s: Seq<char>, i: int, e: int)
    requires
        0 <= i <= e <= s.len(),
        forall|k: int| i <= k < e ==> s[k] != '\'',
        e == s.len() || s[e] == '\'',
    ensures
        scan_to_quote(s, i) == e,
    decreases e - i,
{
    if i < e {
        lemma_scan_to_quote_run(s, i + 1, e);
    }
}

/// Reparsing the canonical text of an integer literal — its digits — yields
/// an `IntegerLiteral` holding exactly that text.
pub proof fn lemma_integer_literal_roundtrip(ds: Seq<char>)
    requires
        ds.len() > 0,
        forall|k: int| 0 <= k < ds.len() ==> is_digit_char(ds[k]),
    ensures
        grammar::parsed_literal_value(ds) == Option::Some(AstView::IntegerLiteral { s: ds }),
{
    reveal_with_fuel(tokens_from, 3);
    lemma_scan_digits_run(ds, 0, ds.len() as int);
    assert(skip_ws(ds, 0) == 0);
    assert(ds.subrange(0, ds.len() as int) =~= ds);
    let tok = TokView::Int { s: ds };
    assert(next_token(ds, 0) == Option::Some((tok, ds.len() as int)));
    assert(skip_ws(ds, ds.len() as int) == ds.len() as int);
    assert(tokens_from(ds, ds.len() as int) == Option::Some(Seq::<TokView>::empty()));
    assert(seq![tok] + Seq::<TokView>::empty() =~= seq![tok]);
    assert(lex(ds) == Option::Some(seq![tok]));
    let toks = seq![tok];
    assert(grammar::literal_value(toks, 0) == Option::Some(
        (AstView::IntegerLiteral { s: ds }, 1int),
    ));
}

/// Reparsing the canonical text of a string literal — its content between
/// quotes — yields a `StringLiteral` holding exactly that content.  The
/// content may contain any characters but the quote, the comment marker
/// `--` included: a marker inside a string literal is never stripped.
pub proof fn lemma_string_literal_roundtrip(content: Seq<char>)
    requires
        forall|k: int| 0 <= k < content.len() ==> content[k] != '\'',
    ensures
        grammar::parsed_literal_value(seq!['\''] + content + seq!['\'']) == Option::Some(
            AstView::StringLiteral { s: content },
        ),
{
    reveal_with_fuel(tokens_from, 3);
    let text = seq!['\''] + content + seq!['\''];
    let n = text.len() as int;
    assert(text[0] == '\'');
    assert(text[n - 1] == '\'');
    assert(forall|k: int| 1 <= k < n - 1 ==> text[k] == content[k - 1] && text[k] != '\'');
    assert(skip_ws(text, 0) == 0);
    lemma_scan_to_quote_run(text, 1, n - 1);
    assert(text.subrange(1, n - 1) =~= content);
    let tok = TokView::Str { s: content };
    assert(next_token(text, 0) == Option::Some((tok, n)));
    assert(skip_ws(text, n) == n);
    assert(tokens_from(text, n) == Option::Some(Seq::<TokView>::empty()));
    assert(seq![tok] + Seq::<TokView>::empty() =~= seq![tok]);
    assert(lex(text) == Option::Some(seq![tok]));
    let toks = seq![tok];
    assert(grammar::literal_value(toks, 0) == Option::Some(
        (AstView::StringLiteral { s: content }, 1int),
    ));
}

/// The words that name built-in function forms; any other word in call
/// position falls through to `UnknownFunction`.
pub open spec fn is_builtin_call_word(w: Seq<char>) -> bool {
    let u = upper_seq(w);
    ||| u == "COALESCE"@
    ||| u == "CONCAT"@
    ||| u == "CAST"@
    ||| u == "REPLACE"@
    ||| u == "SUBSTRING"@
    ||| u == "SUBSTR"@
    ||| u == "TO_DATE"@
    ||| u == "RIGHT"@
    ||| u == "POWER"@
    ||| u == "DATE_TRUNC"@
    ||| u == "MONTHS_BETWEEN"@
    ||| u == "MAX"@
    ||| u == "MIN"@
    ||| u == "SUM"@
    ||| u == "COUNT"@
    ||| u == "DATE"@
    ||| u == "CASE"@
    ||| u == "INTERVAL"@
}

/// Parsing never fails merely because a function name is unrecognized: a
/// call `w(a)` whose name is no built-in keyword denotes an
/// `UnknownFunction` that keeps the name and the argument unchanged.
pub proof fn lemma_unknown_function_fallback(w: Seq<char>, a: Seq<char>)
    requires
        !is_builtin_call_word(w),
        upper_seq(a) != "TRUE"@,
        upper_seq(a) != "FALSE"@,
        upper_seq(a) != "AND"@,
        upper_seq(a) != "OR"@,
        upper_seq(a) != "CASE"@,
        upper_seq(a) != "INTERVAL"@,
    ensures
        ({
            let s = seq![
                TokView::Word { s: w },
                TokView::LParen,
                TokView::Word { s: a },
                TokView::RParen,
            ];
            grammar::expression(s, 0) == Option::Some(
                (
                    AstView::UnknownFunction {
                        name: Box::new(AstView::Identifier { s: w }),
                        exprs: seq![AstView::Identifier { s: a }],
                    },
                    4int,
                ),
            )
        }),
{
    let s = seq![
        TokView::Word { s: w },
        TokView::LParen,
        TokView::Word { s: a },
        TokView::RParen,
    ];
    // the argument parses as a bare identifier expression
    assert(grammar::qual_tail(s, 3) == (Seq::<AstView>::empty(), 3int));
    assert(grammar::qualified_identifier(s, 2) == Option::Some(
        (AstView::Identifier { s: a }, 3int),
    ));
    assert(grammar::function_expression(s, 2) is None);
    assert(grammar::literal_unsigned(s, 2) is None);
    assert(grammar::atom(s, 2) == Option::Some((AstView::Identifier { s: a }, 3int)));
    assert(grammar::operand(s, 2) == Option::Some((AstView::Identifier { s: a }, 3int)));
    assert(grammar::expr_chain(s, 3) == Option::Some((
        Seq::<(crate::ast::Operation, AstView)>::empty(),
        3int,
    )));
    assert(grammar::expression(s, 2) == Option::Some((AstView::Identifier { s: a }, 3int)));
    assert(grammar::expr_list(s, 2) == Option::Some((seq![AstView::Identifier { s: a }], 3int)));
    assert(grammar::paren_expr_list(s, 1) == Option::Some(
        (seq![AstView::Identifier { s: a }], 4int),
    ));
    // the name falls through every built-in alternative to the unknown form
    assert(grammar::qual_tail(s, 1) == (Seq::<AstView>::empty(), 1int));
    assert(grammar::qualified_identifier(s, 0) == Option::Some(
        (AstView::Identifier { s: w }, 1int),
    ));
    let unknown = AstView::UnknownFunction {
        name: Box::new(AstView::Identifier { s: w }),
        exprs: seq![AstView::Identifier { s: a }],
    };
    assert(grammar::function_expression(s, 0) == Option::Some((unknown, 4int)));
    assert(grammar::atom(s, 0) == Option::Some((unknown, 4int)));
    assert(grammar::operand(s, 0) == Option::Some((unknown, 4int)));
    assert(grammar::expr_chain(s, 4) == Option::Some((
        Seq::<(crate::ast::Operation, AstView)>::empty(),
        4int,
    )));
    assert(grammar::expression(s, 0) == Option::Some((unknown, 4int)));
}

} // verus!

verus! {

/// The appended tail this module reasons about: a space, the comment
/// marker, and the comment's text.
pub open spec fn comment_tail(c: Seq<char>) -> Seq<char> {
    seq![' ', '-', '-'] + c
}

/// Whether a sequence is free of line breaks.
pub open spec fn no_newline(c: Seq<char>) -> bool {
    forall|k: int| 0 <= k < c.len() ==> c[k] != '\n'
}

/// Digit runs are unchanged by an appended tail that starts with a space.
proof fn lemma_scan_digits_ext(s: Seq<char>, c: Seq<char>, i: int)
    requires
        0 <= i <= s.len(),
    ensures
        scan_digits(s + comment_tail(c), i) == scan_digits(s, i),
    decreases s.len() - i,
{
    let s2 = s + comment_tail(c);
    assert(s2[s.len() as int] == ' ');
    if i < s.len() && is_digit_char(s[i]) {
        lemma_scan_digits_ext(s, c, i + 1);
    }
}

/// Identifier runs are unchanged by an appended tail that starts with a
/// space.
proof fn lemma_scan_ident_ext(s: Seq<char>, c: Seq<char>, i: int)
    requires
        0 <= i <= s.len(),
    ensures
        scan_ident(s + comment_tail(c), i) == scan_ident(s, i),
    decreases s.len() - i,
{
    let s2 = s + comment_tail(c);
    assert(s2[s.len() as int] == ' ');
    if i < s.len() && is_ident_char(s[i]) {
        lemma_scan_ident_ext(s, c, i + 1);
    }
}

/// A quote search that succeeds within the input is unchanged by an
/// appended tail.
proof fn lemma_scan_to_quote_ext(s: Seq<char>, c: Seq<char>, i: int)
    requires
        0 <= i <= s.len(),
        scan_to_quote(s, i) < s.len(),
    ensures
        scan_to_quote(s + comment_tail(c), i) == scan_to_quote(s, i),
    decreases s.len() - i,
{
    if i < s.len() && s[i] != '\'' {
        lemma_scan_to_quote_ext(s, c, i + 1);
    }
}

/// Whitespace skipping that stops within the input is unchanged by an
/// appended tail.
proof fn lemma_skip_ws_ext(s: Seq<char>, c: Seq<char>, i: int)
    requires
        0 <= i <= s.len(),
        skip_ws(s, i) < s.len(),
    ensures
        skip_ws(s + comment_tail(c), i) == skip_ws(s, i),
    decreases s.len() - i, 0int,
{
    crate::lexer::lemma_skip_ws_bounds(s, i);
    let s2 = s + comment_tail(c);
    assert(s2[s.len() as int] == ' ');
    if i < s.len() {
        if is_space_char(s[i]) {
            lemma_skip_ws_ext(s, c, i + 1);
        } else if crate::lexer::is_comment_start(s, i) {
            crate::lexer::lemma_skip_comment_bounds(s, i + 2);
            lemma_skip_comment_ext(s, c, i + 2);
        } else {
            if s[i] == '-' && i + 1 < s2.len() && s2[i + 1] == '-' {
                assert(i + 1 == s.len() && s2[i + 1] == ' ');
            }
        }
    }
}

/// Comment skipping that stops within the input is unchanged by an
/// appended tail.
proof fn lemma_skip_comment_ext(s: Seq<char>, c: Seq<char>, i: int)
    requires
        0 <= i <= s.len(),
        crate::lexer::skip_comment(s, i) < s.len(),
    ensures
        crate::lexer::skip_comment(s + comment_tail(c), i) == crate::lexer::skip_comment(s, i),
    decreases s.len() - i, 1int,
{
    crate::lexer::lemma_skip_comment_bounds(s, i);
    if i < s.len() {
        if s[i] == '\n' {
            crate::lexer::lemma_skip_ws_bounds(s, i + 1);
            lemma_skip_ws_ext(s, c, i + 1);
        } else {
            lemma_skip_comment_ext(s, c, i + 1);
        }
    }
}

/// The appended tail itself skips away entirely: from its comment body to
/// the end of the extended input.
proof fn lemma_skip_comment_tail(s: Seq<char>, c: Seq<char>, i: int)
    requires
        no_newline(c),
        s.len() + 3 <= i <= s.len() + 3 + c.len(),
    ensures
        crate::lexer::skip_comment(s + comment_tail(c), i) == s.len() + 3 + c.len(),
    decreases s.len() + 3 + c.len() - i,
{
    let s2 = s + comment_tail(c);
    assert(s2.len() == s.len() + 3 + c.len());
    if i < s2.len() {
        assert(s2[i] == c[i - s.len() - 3]);
        assert(s2[i] != '\n');
        lemma_skip_comment_tail(s, c, i + 1);
    }
}

/// Whitespace skipping that reaches the end of the input swallows the
/// whole appended comment tail as well.
proof fn lemma_skip_ws_ext_end(s: Seq<char>, c: Seq<char>, i: int)
    requires
        0 <= i <= s.len(),
        no_newline(c),
        skip_ws(s, i) == s.len(),
    ensures
        skip_ws(s + comment_tail(c), i) == s.len() + 3 + c.len(),
    decreases s.len() - i, 0int,
{
    let s2 = s + comment_tail(c);
    assert(s2[s.len() as int] == ' ');
    assert(s2[s.len() as int + 1] == '-');
    assert(s2[s.len() as int + 2] == '-');
    if i < s.len() {
        if is_space_char(s[i]) {
            lemma_skip_ws_ext_end(s, c, i + 1);
        } else if crate::lexer::is_comment_start(s, i) {
            lemma_skip_comment_ext_end(s, c, i + 2);
        } else {
            assert(skip_ws(s, i) == i && i < s.len());
            assert(false);
        }
    } else {
        // at the boundary: skip the space, enter the appended comment
        assert(crate::lexer::is_comment_start(s2, s.len() as int + 1));
        lemma_skip_comment_tail(s, c, s.len() as int + 3);
        assert(skip_ws(s2, s.len() as int + 1) == crate::lexer::skip_comment(
            s2,
            s.len() as int + 3,
        ));
        assert(skip_ws(s2, s.len() as int) == skip_ws(s2, s.len() as int + 1));
    }
}

/// Comment skipping that reaches the end of the input swallows the whole
/// appended comment tail as well.
proof fn lemma_skip_comment_ext_end(s: Seq<char>, c: Seq<char>, i: int)
    requires
        0 <= i <= s.len(),
        no_newline(c),
        crate::lexer::skip_comment(s, i) == s.len(),
    ensures
        crate::lexer::skip_comment(s + comment_tail(c), i) == s.len() + 3 + c.len(),
    decreases s.len() - i, 1int,
{
    let s2 = s + comment_tail(c);
    if i < s.len() {
        if s[i] == '\n' {
            lemma_skip_ws_ext_end(s, c, i + 1);
        } else {
            lemma_skip_comment_ext_end(s, c, i + 1);
        }
    } else {
        // the comment continues straight into the appended tail
        assert(s2[s.len() as int] == ' ');
        assert(s2[s.len() as int + 1] == '-');
        assert(s2[s.len() as int + 2] == '-');
        lemma_skip_comment_tail(s, c, s.len() as int + 3);
        assert(crate::lexer::skip_comment(s2, s.len() as int + 2) == s2.len());
        assert(crate::lexer::skip_comment(s2, s.len() as int + 1) == s2.len());
        assert(crate::lexer::skip_comment(s2, s.len() as int) == s2.len());
    }
}

/// A token recognized within the input is recognized unchanged in the
/// extended input.
proof fn lemma_next_token_ext(s: Seq<char>, c: Seq<char>, j: int)
    requires
        0 <= j < s.len(),
        next_token(s, j) is Some,
    ensures
        next_token(s + comment_tail(c), j) == next_token(s, j),
{
    let s2 = s + comment_tail(c);
    let n = s.len() as int;
    assert(s2[n] == ' ');
    crate::lexer::lemma_next_token_advances(s, j);
    lemma_scan_ident_ext(s, c, j);
    if is_ident_start_char(s[j]) {
        crate::lexer::lemma_scan_ident_bounds(s, j);
        let e = scan_ident(s, j);
        assert(s2.subrange(j, e) =~= s.subrange(j, e));
    } else if crate::lexer::is_number_start(s, j) {
        lemma_scan_digits_ext(s, c, j);
        crate::lexer::lemma_scan_digits_bounds(s, j);
        let a = scan_digits(s, j);
        assert(crate::lexer::is_number_start(s2, j));
        let dotted = a < s.len() && s[a] == '.' && a + 1 < s.len() && is_digit_char(s[a + 1]);
        let dotted2 = a < s2.len() && s2[a] == '.' && a + 1 < s2.len() && is_digit_char(
            s2[a + 1],
        );
        assert(dotted == dotted2);
        if dotted {
            lemma_scan_digits_ext(s, c, a + 1);
            crate::lexer::lemma_scan_digits_bounds(s, a + 1);
        }
        let b = if dotted {
            scan_digits(s, a + 1)
        } else {
            a
        };
        let signed_exp = b + 1 < s.len() && (s[b + 1] == '+' || s[b + 1] == '-') && b + 2
            < s.len() && is_digit_char(s[b + 2]);
        let signed_exp2 = b + 1 < s2.len() && (s2[b + 1] == '+' || s2[b + 1] == '-') && b + 2
            < s2.len() && is_digit_char(s2[b + 2]);
        assert(signed_exp == signed_exp2) by {
            if b + 1 < s2.len() && !(b + 1 < s.len()) {
                assert(b + 1 == n || b + 1 == n + 1);
                if b + 1 == n {
                    assert(s2[b + 1] == ' ');
                }
                if b + 1 == n + 1 {
                    assert(b == n);
                    assert(s2[b + 2] == '-');
                    assert(!is_digit_char(s2[b + 2]));
                }
            }
            if b + 1 < s.len() && b + 2 == s.len() {
                assert(s2[b + 2] == ' ');
            }
        }
        let has_exp = b < s.len() && (s[b] == 'E' || s[b] == 'e') && ((b + 1 < s.len()
            && is_digit_char(s[b + 1])) || signed_exp);
        let has_exp2 = b < s2.len() && (s2[b] == 'E' || s2[b] == 'e') && ((b + 1 < s2.len()
            && is_digit_char(s2[b + 1])) || signed_exp2);
        assert(has_exp == has_exp2) by {
            if b == n {
                assert(s2[b] == ' ');
            } else if b < n {
                if b + 1 == n {
                    assert(s2[b + 1] == ' ');
                }
            }
        }
        if has_exp {
            if signed_exp {
                lemma_scan_digits_ext(s, c, b + 2);
                crate::lexer::lemma_scan_digits_bounds(s, b + 2);
                let e = scan_digits(s, b + 2);
                assert(s2.subrange(j, e) =~= s.subrange(j, e));
            } else {
                lemma_scan_digits_ext(s, c, b + 1);
                crate::lexer::lemma_scan_digits_bounds(s, b + 1);
                let e = scan_digits(s, b + 1);
                assert(s2.subrange(j, e) =~= s.subrange(j, e));
            }
        } else {
            assert(s2.subrange(j, b) =~= s.subrange(j, b));
            assert(s2.subrange(j, a) =~= s.subrange(j, a));
        }
    } else if s[j] == '\'' {
        let q = scan_to_quote(s, j + 1);
        crate::lexer::lemma_scan_to_quote_bounds(s, j + 1);
        assert(q < s.len());
        lemma_scan_to_quote_ext(s, c, j + 1);
        assert(s2.subrange(j + 1, q) =~= s.subrange(j + 1, q));
    } else {
        if j + 1 == n {
            assert(s2[j + 1] == ' ');
        }
    }
}

/// A token sequence recognized in the input is recognized unchanged when a
/// trailing comment is appended.
proof fn lemma_tokens_from_ext(s: Seq<char>, c: Seq<char>, i: int)
    requires
        0 <= i <= s.len(),
        no_newline(c),
        tokens_from(s, i) is Some,
    ensures
        tokens_from(s + comment_tail(c), i) == tokens_from(s, i),
    decreases s.len() - i,
{
    let s2 = s + comment_tail(c);
    let j = skip_ws(s, i);
    crate::lexer::lemma_skip_ws_bounds(s, i);
    if j >= s.len() {
        lemma_skip_ws_ext_end(s, c, i);
        assert(tokens_from(s2, i) == Option::Some(Seq::<TokView>::empty()));
    } else {
        lemma_skip_ws_ext(s, c, i);
        assert(next_token(s, j) is Some);
        lemma_next_token_ext(s, c, j);
        let k = next_token(s, j)->Some_0.1;
        crate::lexer::lemma_next_token_advances(s, j);
        lemma_tokens_from_ext(s, c, k);
    }
}

/// Comment idempotence: a statement with a trailing `-- comment` and the
/// same statement without it lex to the same tokens and parse to the same
/// tree.
pub proof fn lemma_trailing_comment_preserves_parse(text: Seq<char>, c: Seq<char>)
    requires
        lex(text) is Some,
        no_newline(c),
    ensures
        lex(text + comment_tail(c)) == lex(text),
        grammar::parsed_statement(text + comment_tail(c)) == grammar::parsed_statement(text),
{
    lemma_tokens_from_ext(text, c, 0);
}

} // verus!

verus! {

/// Reparsing the canonical text of a decimal literal — an optional integer
/// part, the point, and the fraction digits — yields a `DecimalLiteral`
/// holding exactly that text.
pub proof fn lemma_decimal_literal_roundtrip(whole_digits: Seq<char>, frac: Seq<char>)
    requires
        frac.len() > 0,
        forall|k: int| 0 <= k < whole_digits.len() ==> is_digit_char(whole_digits[k]),
        forall|k: int| 0 <= k < frac.len() ==> is_digit_char(frac[k]),
    ensures
        grammar::parsed_literal_value(whole_digits + seq!['.'] + frac) == Option::Some(
            AstView::DecimalLiteral { s: whole_digits + seq!['.'] + frac },
        ),
{
    reveal_with_fuel(tokens_from, 3);
    let text = whole_digits + seq!['.'] + frac;
    let n = text.len() as int;
    let a = whole_digits.len() as int;
    assert(forall|k: int| 0 <= k < a ==> text[k] == whole_digits[k]);
    assert(text[a] == '.');
    assert(forall|k: int| a + 1 <= k < n ==> text[k] == frac[k - a - 1]);
    lemma_scan_digits_run(text, 0, a);
    lemma_scan_digits_run(text, a + 1, n);
    assert(skip_ws(text, 0) == 0);
    assert(crate::lexer::is_number_start(text, 0));
    assert(text.subrange(0, n) =~= text);
    let tok = TokView::Dec { s: text };
    assert(next_token(text, 0) == Option::Some((tok, n)));
    assert(skip_ws(text, n) == n);
    assert(tokens_from(text, n) == Option::Some(Seq::<TokView>::empty()));
    assert(seq![tok] + Seq::<TokView>::empty() =~= seq![tok]);
    assert(lex(text) == Option::Some(seq![tok]));
    let toks = seq![tok];
    assert(grammar::literal_value(toks, 0) == Option::Some(
        (AstView::DecimalLiteral { s: text }, 1int),
    ));
}

/// Reparsing the canonical text of a boolean literal — any casing of
/// `TRUE` or `FALSE` — yields a `BooleanLiteral` holding exactly that
/// text.
pub proof fn lemma_boolean_literal_roundtrip(w: Seq<char>)
    requires
        upper_seq(w) == "TRUE"@ || upper_seq(w) == "FALSE"@,
    ensures
        grammar::parsed_literal_value(w) == Option::Some(AstView::BooleanLiteral { s: w }),
{
    reveal_with_fuel(tokens_from, 3);
    reveal_strlit("TRUE");
    reveal_strlit("FALSE");
    let n = w.len() as int;
    assert(upper_seq(w).len() == w.len());
    assert(n == 4 || n == 5);
    assert forall|k: int| 0 <= k < n implies is_ident_char(w[k]) && !is_space_char(w[k]) && w[k]
        != '-' && !is_digit_char(w[k]) && w[k] != '.' by {
        assert(crate::chars::upper_char(w[k]) == upper_seq(w)[k]);
        let u = upper_seq(w)[k];
        assert(u == 'T' || u == 'R' || u == 'U' || u == 'E' || u == 'F' || u == 'A' || u == 'L'
            || u == 'S');
        assert(is_ident_char(w[k]));
    }
    assert(is_ident_start_char(w[0]));
    lemma_scan_ident_run(w, 0, n);
    assert(skip_ws(w, 0) == 0);
    assert(w.subrange(0, n) =~= w);
    let tok = TokView::Word { s: w };
    assert(next_token(w, 0) == Option::Some((tok, n)));
    assert(skip_ws(w, n) == n);
    assert(tokens_from(w, n) == Option::Some(Seq::<TokView>::empty()));
    assert(seq![tok] + Seq::<TokView>::empty() =~= seq![tok]);
    assert(lex(w) == Option::Some(seq![tok]));
    let toks = seq![tok];
    assert(grammar::literal_value(toks, 0) == Option::Some(
        (AstView::BooleanLiteral { s: w }, 1int),
    ));
}

} // verus!

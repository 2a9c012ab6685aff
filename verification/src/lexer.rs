//! The lexical grammar: identifiers and keywords, numeric, string and
//! boolean literal shapes, operators and punctuation, with whitespace and
//! `--` comments skipped between tokens.
//!
//! The functions `skip_ws`, `next_token` and `tokens_from` are the
//! specification of the lexer; `tokenize` is the executable lexer, proved to
//! return exactly the token sequence that the specification denotes, or to
//! fail exactly when the specification denotes none.

use vstd::prelude::*;

use crate::chars::is_digit_char;
use crate::chars::is_ident_char;
use crate::chars::is_ident_start_char;
use crate::chars::is_space_char;
use crate::chars::upper_seq;

verus! {

broadcast use vstd::string::group_string_axioms;

/// One lexical token.
#[derive(Debug, PartialEq, Eq)]
pub enum Token {
    /// An identifier or keyword word.
    Word { s: String },
    /// An integer literal: digits only.
    Int { s: String },
    /// A decimal literal: digits with a decimal point, no exponent.
    Dec { s: String },
    /// A floating-point literal: digits with an exponent part.
    Float { s: String },
    /// A string literal; `s` holds the content without the quotes.
    Str { s: String },
    LParen,
    RParen,
    Comma,
    Dot,
    Star,
    Slash,
    Plus,
    Minus,
    /// The `||` concatenation operator.
    Concat,
    EqOp,
    NeOp,
    GtOp,
    GeOp,
    LtOp,
    LeOp,
}

/// The mathematical image of a `Token`.
pub enum TokView {
    Word { s: Seq<char> },
    Int { s: Seq<char> },
    Dec { s: Seq<char> },
    Float { s: Seq<char> },
    Str { s: Seq<char> },
    LParen,
    RParen,
    Comma,
    Dot,
    Star,
    Slash,
    Plus,
    Minus,
    Concat,
    EqOp,
    NeOp,
    GtOp,
    GeOp,
    LtOp,
    LeOp,
}

impl View for Token {
    type V = TokView;

    open spec fn view(&self) -> TokView {
        match self {
            Token::Word { s } => TokView::Word { s: s@ },
            Token::Int { s } => TokView::Int { s: s@ },
            Token::Dec { s } => TokView::Dec { s: s@ },
            Token::Float { s } => TokView::Float { s: s@ },
            Token::Str { s } => TokView::Str { s: s@ },
            Token::LParen => TokView::LParen,
            Token::RParen => TokView::RParen,
            Token::Comma => TokView::Comma,
            Token::Dot => TokView::Dot,
            Token::Star => TokView::Star,
            Token::Slash => TokView::Slash,
            Token::Plus => TokView::Plus,
            Token::Minus => TokView::Minus,
            Token::Concat => TokView::Concat,
            Token::EqOp => TokView::EqOp,
            Token::NeOp => TokView::NeOp,
            Token::GtOp => TokView::GtOp,
            Token::GeOp => TokView::GeOp,
            Token::LtOp => TokView::LtOp,
            Token::LeOp => TokView::LeOp,
        }
    }
}

impl DeepView for Token {
    type V = TokView;

    open spec fn deep_view(&self) -> TokView {
        self.view()
    }
}

/// Whether position `i` opens a `--` comment.
pub open spec fn is_comment_start(s: Seq<char>, i: int) -> bool {
    i + 1 < s.len() && s[i] == '-' && s[i + 1] == '-'
}

/// The first position at or after `i` that holds neither whitespace nor a
/// comment.  A comment runs from `--` to the end of the line.
pub open spec fn skip_ws(s: Seq<char>, i: int) -> int
    decreases s.len() - i, 0int, when 0 <= i <= s.len()
{
    if i < s.len() {
        if is_space_char(s[i]) {
            skip_ws(s, i + 1)
        } else if is_comment_start(s, i) {
            skip_comment(s, i + 2)
        } else {
            i
        }
    } else {
        i
    }
}

/// Skips the rest of a comment line, then resumes ordinary skipping.
pub open spec fn skip_comment(s: Seq<char>, i: int) -> int
    decreases s.len() - i, 1int, when 0 <= i <= s.len()
{
    if i < s.len() {
        if s[i] == '\n' {
            skip_ws(s, i + 1)
        } else {
            skip_comment(s, i + 1)
        }
    } else {
        i
    }
}

pub proof fn lemma_skip_ws_bounds(s: Seq<char>, i: int)
    requires
        0 <= i <= s.len(),
    ensures
        i <= skip_ws(s, i) <= s.len(),
    decreases s.len() - i, 0int,
{
    if i < s.len() {
        if is_space_char(s[i]) {
            lemma_skip_ws_bounds(s, i + 1);
        } else if is_comment_start(s, i) {
            lemma_skip_comment_bounds(s, i + 2);
        }
    }
}

pub proof fn lemma_skip_comment_bounds(s: Seq<char>, i: int)
    requires
        0 <= i <= s.len(),
    ensures
        i <= skip_comment(s, i) <= s.len(),
    decreases s.len() - i, 1int,
{
    if i < s.len() {
        if s[i] == '\n' {
            lemma_skip_ws_bounds(s, i + 1);
        } else {
            lemma_skip_comment_bounds(s, i + 1);
        }
    }
}

/// The first position at or after `i` that does not hold a digit.
pub open spec fn scan_digits(s: Seq<char>, i: int) -> int
    decreases s.len() - i, when 0 <= i <= s.len()
{
    if i < s.len() && is_digit_char(s[i]) {
        scan_digits(s, i + 1)
    } else {
        i
    }
}

/// The first position at or after `i` that does not hold an identifier
/// character.
pub open spec fn scan_ident(s: Seq<char>, i: int) -> int
    decreases s.len() - i, when 0 <= i <= s.len()
{
    if i < s.len() && is_ident_char(s[i]) {
        scan_ident(s, i + 1)
    } else {
        i
    }
}

/// The position of the first quote at or after `i`, or the length of the
/// input if there is none.
pub open spec fn scan_to_quote(s: Seq<char>, i: int) -> int
    decreases s.len() - i, when 0 <= i <= s.len()
{
    if i < s.len() && s[i] != '\'' {
        scan_to_quote(s, i + 1)
    } else {
        i
    }
}

pub proof fn lemma_scan_digits_bounds(s: Seq<char>, i: int)
    requires
        0 <= i <= s.len(),
    ensures
        i <= scan_digits(s, i) <= s.len(),
    decreases s.len() - i,
{
    if i < s.len() && is_digit_char(s[i]) {
        lemma_scan_digits_bounds(s, i + 1);
    }
}

pub proof fn lemma_scan_ident_bounds(s: Seq<char>, i: int)
    requires
        0 <= i <= s.len(),
    ensures
        i <= scan_ident(s, i) <= s.len(),
    decreases s.len() - i,
{
    if i < s.len() && is_ident_char(s[i]) {
        lemma_scan_ident_bounds(s, i + 1);
    }
}

pub proof fn lemma_scan_to_quote_bounds(s: Seq<char>, i: int)
    requires
        0 <= i <= s.len(),
    ensures
        i <= scan_to_quote(s, i) <= s.len(),
    decreases s.len() - i,
{
    if i < s.len() && s[i] != '\'' {
        lemma_scan_to_quote_bounds(s, i + 1);
    }
}

/// Whether position `i` starts a numeric literal: a digit, or a decimal
/// point directly followed by a digit.
pub open spec fn is_number_start(s: Seq<char>, i: int) -> bool {
    i < s.len() && (is_digit_char(s[i]) || (s[i] == '.' && i + 1 < s.len() && is_digit_char(
        s[i + 1],
    )))
}

/// The numeric token that starts at `i`: an optional integer part, an
/// optional fraction introduced by `.`, and an optional exponent introduced
/// by `E` or `e` with an optional sign.  A token with an exponent is a
/// float, one with only a decimal point is a decimal, and one with digits
/// alone is an integer.  The token keeps its source text verbatim.
pub open spec fn lex_number(s: Seq<char>, i: int) -> (TokView, int)
    recommends
        0 <= i <= s.len(),
        is_number_start(s, i),
{
    let a = scan_digits(s, i);
    let dotted = a < s.len() && s[a] == '.' && a + 1 < s.len() && is_digit_char(s[a + 1]);
    let b = if dotted {
        scan_digits(s, a + 1)
    } else {
        a
    };
    let signed_exp = b + 1 < s.len() && (s[b + 1] == '+' || s[b + 1] == '-') && b + 2 < s.len()
        && is_digit_char(s[b + 2]);
    let has_exp = b < s.len() && (s[b] == 'E' || s[b] == 'e') && ((b + 1 < s.len() && is_digit_char(
        s[b + 1],
    )) || signed_exp);
    if has_exp {
        let e = if signed_exp {
            scan_digits(s, b + 2)
        } else {
            scan_digits(s, b + 1)
        };
        (TokView::Float { s: s.subrange(i, e) }, e)
    } else if dotted {
        (TokView::Dec { s: s.subrange(i, b) }, b)
    } else {
        (TokView::Int { s: s.subrange(i, a) }, a)
    }
}

/// The token that starts at position `i`, which must not be whitespace or a
/// comment, and the position after it; `None` when no token of the lexical
/// grammar starts there.
pub open spec fn next_token(s: Seq<char>, i: int) -> Option<(TokView, int)>
    recommends
        0 <= i < s.len(),
{
    let c = s[i];
    if is_ident_start_char(c) {
        Option::Some((TokView::Word { s: s.subrange(i, scan_ident(s, i)) }, scan_ident(s, i)))
    } else if is_number_start(s, i) {
        Option::Some(lex_number(s, i))
    } else if c == '\'' {
        let j = scan_to_quote(s, i + 1);
        if j < s.len() {
            Option::Some((TokView::Str { s: s.subrange(i + 1, j) }, j + 1))
        } else {
            Option::None
        }
    } else if c == '(' {
        Option::Some((TokView::LParen, i + 1))
    } else if c == ')' {
        Option::Some((TokView::RParen, i + 1))
    } else if c == ',' {
        Option::Some((TokView::Comma, i + 1))
    } else if c == '.' {
        Option::Some((TokView::Dot, i + 1))
    } else if c == '*' {
        Option::Some((TokView::Star, i + 1))
    } else if c == '/' {
        Option::Some((TokView::Slash, i + 1))
    } else if c == '+' {
        Option::Some((TokView::Plus, i + 1))
    } else if c == '-' {
        Option::Some((TokView::Minus, i + 1))
    } else if c == '=' {
        Option::Some((TokView::EqOp, i + 1))
    } else if c == '!' {
        if i + 1 < s.len() && s[i + 1] == '=' {
            Option::Some((TokView::NeOp, i + 2))
        } else {
            Option::None
        }
    } else if c == '|' {
        if i + 1 < s.len() && s[i + 1] == '|' {
            Option::Some((TokView::Concat, i + 2))
        } else {
            Option::None
        }
    } else if c == '>' {
        if i + 1 < s.len() && s[i + 1] == '=' {
            Option::Some((TokView::GeOp, i + 2))
        } else {
            Option::Some((TokView::GtOp, i + 1))
        }
    } else if c == '<' {
        if i + 1 < s.len() && s[i + 1] == '=' {
            Option::Some((TokView::LeOp, i + 2))
        } else {
            Option::Some((TokView::LtOp, i + 1))
        }
    } else {
        Option::None
    }
}

/// Every token of the lexical grammar spans at least one character and ends
/// within the input.
pub proof fn lemma_next_token_advances(s: Seq<char>, i: int)
    requires
        0 <= i < s.len(),
    ensures
        match next_token(s, i) {
            Option::Some((t, k)) => i < k <= s.len(),
            Option::None => true,
        },
{
    if is_ident_start_char(s[i]) {
        assert(scan_ident(s, i) == scan_ident(s, i + 1));
        lemma_scan_ident_bounds(s, i + 1);
    } else if is_number_start(s, i) {
        let a = scan_digits(s, i);
        if is_digit_char(s[i]) {
            assert(scan_digits(s, i) == scan_digits(s, i + 1));
            lemma_scan_digits_bounds(s, i + 1);
        } else {
            assert(a == i);
        }
        let dotted = a < s.len() && s[a] == '.' && a + 1 < s.len() && is_digit_char(s[a + 1]);
        let b = if dotted {
            scan_digits(s, a + 1)
        } else {
            a
        };
        if dotted {
            assert(scan_digits(s, a + 1) == scan_digits(s, a + 2));
            lemma_scan_digits_bounds(s, a + 2);
        } else {
            if !is_digit_char(s[i]) {
                assert(s[i] == '.' && i + 1 < s.len() && is_digit_char(s[i + 1]));
                assert(false);
            }
        }
        let signed_exp = b + 1 < s.len() && (s[b + 1] == '+' || s[b + 1] == '-') && b + 2 < s.len()
            && is_digit_char(s[b + 2]);
        let has_exp = b < s.len() && (s[b] == 'E' || s[b] == 'e') && ((b + 1 < s.len()
            && is_digit_char(s[b + 1])) || signed_exp);
        if has_exp {
            if signed_exp {
                assert(scan_digits(s, b + 2) == scan_digits(s, b + 3));
                lemma_scan_digits_bounds(s, b + 3);
            } else {
                assert(scan_digits(s, b + 1) == scan_digits(s, b + 2));
                lemma_scan_digits_bounds(s, b + 2);
            }
        }
    } else if s[i] == '\'' {
        lemma_scan_to_quote_bounds(s, i + 1);
    }
}

/// The token sequence from position `i` on, or `None` when the input does
/// not lex.
pub open spec fn tokens_from(s: Seq<char>, i: int) -> Option<Seq<TokView>>
    decreases s.len() - i, when 0 <= i <= s.len()
{
    let j = skip_ws(s, i);
    proof {
        lemma_skip_ws_bounds(s, i);
    }
    if j >= s.len() {
        Option::Some(Seq::empty())
    } else {
        match next_token(s, j) {
            Option::None => Option::None,
            Option::Some((t, k)) => {
                proof {
                    lemma_next_token_advances(s, j);
                }
                match tokens_from(s, k) {
                    Option::None => Option::None,
                    Option::Some(ts) => Option::Some(seq![t] + ts),
                }
            },
        }
    }
}

/// The token sequence of a whole input, or `None` when it does not lex.
pub open spec fn lex(s: Seq<char>) -> Option<Seq<TokView>> {
    tokens_from(s, 0)
}

/// Exec twin of `skip_ws`.
fn skip_ws_x(s: &str, i: usize) -> (j: usize)
    requires
        i <= s@.len(),
    ensures
        j == skip_ws(s@, i as int),
        i <= j <= s@.len(),
{
    let n = s.unicode_len();
    let mut cur = i;
    loop
        invariant
            i <= cur <= n,
            n == s@.len(),
            skip_ws(s@, i as int) == skip_ws(s@, cur as int),
        ensures
            cur <= n,
            skip_ws(s@, i as int) == cur as int,
        decreases n - cur,
    {
        if cur >= n {
            break ;
        }
        let c = s.get_char(cur);
        if crate::chars::space_char(c) {
            cur = cur + 1;
        } else if c == '-' && cur + 1 < n && s.get_char(cur + 1) == '-' {
            let ghost c0 = cur + 2;
            cur = cur + 2;
            while cur < n && s.get_char(cur) != '\n'
                invariant
                    c0 <= cur <= n,
                    n == s@.len(),
                    skip_comment(s@, c0 as int) == skip_comment(s@, cur as int),
                decreases n - cur,
            {
                cur = cur + 1;
            }
            if cur < n {
                cur = cur + 1;
            } else {
                assert(skip_comment(s@, cur as int) == cur as int);
                break ;
            }
        } else {
            assert(skip_ws(s@, cur as int) == cur as int);
            break ;
        }
    }
    proof {
        lemma_skip_ws_bounds(s@, i as int);
    }
    cur
}

/// Exec twin of `scan_digits`.
fn scan_digits_x(s: &str, i: usize) -> (j: usize)
    requires
        i <= s@.len(),
    ensures
        j == scan_digits(s@, i as int),
        i <= j <= s@.len(),
{
    let n = s.unicode_len();
    let mut j = i;
    while j < n && crate::chars::digit_char(s.get_char(j))
        invariant
            i <= j <= n,
            n == s@.len(),
            scan_digits(s@, i as int) == scan_digits(s@, j as int),
        decreases n - j,
    {
        j = j + 1;
    }
    j
}

/// Exec twin of `scan_ident`.
fn scan_ident_x(s: &str, i: usize) -> (j: usize)
    requires
        i <= s@.len(),
    ensures
        j == scan_ident(s@, i as int),
        i <= j <= s@.len(),
{
    let n = s.unicode_len();
    let mut j = i;
    while j < n && crate::chars::ident_char(s.get_char(j))
        invariant
            i <= j <= n,
            n == s@.len(),
            scan_ident(s@, i as int) == scan_ident(s@, j as int),
        decreases n - j,
    {
        j = j + 1;
    }
    j
}

/// Exec twin of `scan_to_quote`.
fn scan_to_quote_x(s: &str, i: usize) -> (j: usize)
    requires
        i <= s@.len(),
    ensures
        j == scan_to_quote(s@, i as int),
        i <= j <= s@.len(),
{
    let n = s.unicode_len();
    let mut j = i;
    while j < n && s.get_char(j) != '\''
        invariant
            i <= j <= n,
            n == s@.len(),
            scan_to_quote(s@, i as int) == scan_to_quote(s@, j as int),
        decreases n - j,
    {
        j = j + 1;
    }
    j
}

/// Copies the characters `from..to` of the input into an owned string.
fn text_of(s: &str, from: usize, to: usize) -> (r: String)
    requires
        from <= to <= s@.len(),
    ensures
        r@ == s@.subrange(from as int, to as int),
{
    s.substring_char(from, to).to_owned()
}

/// Exec twin of `next_token`.
fn next_token_x(s: &str, i: usize) -> (r: Option<(Token, usize)>)
    requires
        i < s@.len(),
    ensures
        match r {
            Option::Some((t, k)) => next_token(s@, i as int) == Option::Some((t@, k as int)) && i
                < k <= s@.len(),
            Option::None => next_token(s@, i as int) is None,
        },
{
    proof {
        lemma_next_token_advances(s@, i as int);
    }
    let n = s.unicode_len();
    let c = s.get_char(i);
    if crate::chars::ident_start_char(c) {
        let j = scan_ident_x(s, i);
        Option::Some((Token::Word { s: text_of(s, i, j) }, j))
    } else if crate::chars::digit_char(c) || (c == '.' && i + 1 < n && crate::chars::digit_char(
        s.get_char(i + 1),
    )) {
        let a = scan_digits_x(s, i);
        let dotted = a < n && s.get_char(a) == '.' && a + 1 < n && crate::chars::digit_char(
            s.get_char(a + 1),
        );
        let b = if dotted {
            scan_digits_x(s, a + 1)
        } else {
            a
        };
        let signed_exp = b < n && b + 1 < n && (s.get_char(b + 1) == '+' || s.get_char(b + 1)
            == '-') && b + 2 < n && crate::chars::digit_char(s.get_char(b + 2));
        let has_exp = b < n && (s.get_char(b) == 'E' || s.get_char(b) == 'e') && ((b + 1 < n
            && crate::chars::digit_char(s.get_char(b + 1))) || signed_exp);
        if has_exp {
            let e = if signed_exp {
                scan_digits_x(s, b + 2)
            } else {
                scan_digits_x(s, b + 1)
            };
            Option::Some((Token::Float { s: text_of(s, i, e) }, e))
        } else if dotted {
            Option::Some((Token::Dec { s: text_of(s, i, b) }, b))
        } else {
            Option::Some((Token::Int { s: text_of(s, i, a) }, a))
        }
    } else if c == '\'' {
        let j = scan_to_quote_x(s, i + 1);
        if j < n {
            Option::Some((Token::Str { s: text_of(s, i + 1, j) }, j + 1))
        } else {
            Option::None
        }
    } else if c == '(' {
        Option::Some((Token::LParen, i + 1))
    } else if c == ')' {
        Option::Some((Token::RParen, i + 1))
    } else if c == ',' {
        Option::Some((Token::Comma, i + 1))
    } else if c == '.' {
        Option::Some((Token::Dot, i + 1))
    } else if c == '*' {
        Option::Some((Token::Star, i + 1))
    } else if c == '/' {
        Option::Some((Token::Slash, i + 1))
    } else if c == '+' {
        Option::Some((Token::Plus, i + 1))
    } else if c == '-' {
        Option::Some((Token::Minus, i + 1))
    } else if c == '=' {
        Option::Some((Token::EqOp, i + 1))
    } else if c == '!' {
        if i + 1 < n && s.get_char(i + 1) == '=' {
            Option::Some((Token::NeOp, i + 2))
        } else {
            Option::None
        }
    } else if c == '|' {
        if i + 1 < n && s.get_char(i + 1) == '|' {
            Option::Some((Token::Concat, i + 2))
        } else {
            Option::None
        }
    } else if c == '>' {
        if i + 1 < n && s.get_char(i + 1) == '=' {
            Option::Some((Token::GeOp, i + 2))
        } else {
            Option::Some((Token::GtOp, i + 1))
        }
    } else if c == '<' {
        if i + 1 < n && s.get_char(i + 1) == '=' {
            Option::Some((Token::LeOp, i + 2))
        } else {
            Option::Some((Token::LtOp, i + 1))
        }
    } else {
        Option::None
    }
}

/// Splits the input into its tokens: `Ok` with exactly the token sequence
/// the lexical grammar denotes, or `Err` with the character offset at which
/// no token starts.
pub fn tokenize(s: &str) -> (r: Result<Vec<Token>, usize>)
    ensures
        match r {
            Result::Ok(v) => lex(s@) == Option::Some(v.deep_view()),
            Result::Err(pos) => lex(s@) is None && pos <= s@.len(),
        },
{
    let n = s.unicode_len();
    let mut acc: Vec<Token> = Vec::new();
    let mut pos: usize = 0;
    loop
        invariant
            pos <= n,
            n == s@.len(),
            match tokens_from(s@, pos as int) {
                Option::Some(ts) => lex(s@) == Option::Some(acc.deep_view() + ts),
                Option::None => lex(s@) is None,
            },
        ensures
            lex(s@) == Option::Some(acc.deep_view()),
        decreases n - pos,
    {
        let j = skip_ws_x(s, pos);
        if j >= n {
            assert(tokens_from(s@, pos as int) == Option::Some(Seq::<TokView>::empty()));
            assert(acc.deep_view() + Seq::<TokView>::empty() =~= acc.deep_view());
            break ;
        }
        match next_token_x(s, j) {
            Option::None => {
                assert(tokens_from(s@, pos as int) is None);
                return Result::Err(j);
            },
            Option::Some((t, k)) => {
                proof {
                    let ts_pos = tokens_from(s@, pos as int);
                    let ts_k = tokens_from(s@, k as int);
                    assert(ts_pos == match ts_k {
                        Option::None => Option::None::<Seq<TokView>>,
                        Option::Some(ts) => Option::Some(seq![t@] + ts),
                    });
                }
                let ghost old_acc = acc.deep_view();
                acc.push(t);
                proof {
                    assert(acc.deep_view() =~= old_acc.push(t@));
                    if tokens_from(s@, k as int) is Some {
                        let ts = tokens_from(s@, k as int)->Some_0;
                        assert(old_acc + (seq![t@] + ts) =~= old_acc.push(t@) + ts);
                    }
                }
                pos = k;
            },
        }
    }
    Result::Ok(acc)
}

/// Whether the token is the given keyword, compared without regard to case.
/// The keyword literal is passed in upper case.
pub open spec fn is_kw(t: TokView, w: Seq<char>) -> bool {
    t matches TokView::Word { s } && upper_seq(s) == w
}

/// Exec twin of `is_kw`.
pub fn kw(t: &Token, w: &str) -> (r: bool)
    ensures
        r == is_kw(t@, w@),
{
    match t {
        Token::Word { s } => crate::chars::str_upper_eq(s.as_str(), w),
        _ => false,
    }
}

/// The reserved words that a bare alias (one written without `AS`) may not
/// use, so that a following clause keyword is never mistaken for an alias.
pub open spec fn is_reserved(w: Seq<char>) -> bool {
    let u = upper_seq(w);
    ||| u == "SELECT"@
    ||| u == "FROM"@
    ||| u == "WHERE"@
    ||| u == "GROUP"@
    ||| u == "BY"@
    ||| u == "HAVING"@
    ||| u == "JOIN"@
    ||| u == "INNER"@
    ||| u == "LEFT"@
    ||| u == "RIGHT"@
    ||| u == "FULL"@
    ||| u == "OUTER"@
    ||| u == "CROSS"@
    ||| u == "NATURAL"@
    ||| u == "ON"@
    ||| u == "USING"@
    ||| u == "AS"@
    ||| u == "WITH"@
    ||| u == "UNION"@
    ||| u == "ALL"@
    ||| u == "DISTINCT"@
    ||| u == "AND"@
    ||| u == "OR"@
    ||| u == "NOT"@
    ||| u == "IS"@
    ||| u == "NULL"@
    ||| u == "CASE"@
    ||| u == "WHEN"@
    ||| u == "THEN"@
    ||| u == "ELSE"@
    ||| u == "END"@
    ||| u == "INTERVAL"@
    ||| u == "TO"@
    ||| u == "ORDER"@
    ||| u == "LIMIT"@
}

/// Exec twin of `is_reserved`.
pub fn reserved_word(w: &str) -> (r: bool)
    ensures
        r == is_reserved(w@),
{
    crate::chars::str_upper_eq(w, "SELECT") || crate::chars::str_upper_eq(w, "FROM")
        || crate::chars::str_upper_eq(w, "WHERE") || crate::chars::str_upper_eq(w, "GROUP")
        || crate::chars::str_upper_eq(w, "BY") || crate::chars::str_upper_eq(w, "HAVING")
        || crate::chars::str_upper_eq(w, "JOIN") || crate::chars::str_upper_eq(w, "INNER")
        || crate::chars::str_upper_eq(w, "LEFT") || crate::chars::str_upper_eq(w, "RIGHT")
        || crate::chars::str_upper_eq(w, "FULL") || crate::chars::str_upper_eq(w, "OUTER")
        || crate::chars::str_upper_eq(w, "CROSS") || crate::chars::str_upper_eq(w, "NATURAL")
        || crate::chars::str_upper_eq(w, "ON") || crate::chars::str_upper_eq(w, "USING")
        || crate::chars::str_upper_eq(w, "AS") || crate::chars::str_upper_eq(w, "WITH")
        || crate::chars::str_upper_eq(w, "UNION") || crate::chars::str_upper_eq(w, "ALL")
        || crate::chars::str_upper_eq(w, "DISTINCT") || crate::chars::str_upper_eq(w, "AND")
        || crate::chars::str_upper_eq(w, "OR") || crate::chars::str_upper_eq(w, "NOT")
        || crate::chars::str_upper_eq(w, "IS") || crate::chars::str_upper_eq(w, "NULL")
        || crate::chars::str_upper_eq(w, "CASE") || crate::chars::str_upper_eq(w, "WHEN")
        || crate::chars::str_upper_eq(w, "THEN") || crate::chars::str_upper_eq(w, "ELSE")
        || crate::chars::str_upper_eq(w, "END") || crate::chars::str_upper_eq(w, "INTERVAL")
        || crate::chars::str_upper_eq(w, "TO") || crate::chars::str_upper_eq(w, "ORDER")
        || crate::chars::str_upper_eq(w, "LIMIT")
}

} // verus!

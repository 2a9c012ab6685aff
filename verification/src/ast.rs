//! The abstract syntax tree: one variant per statement shape, expression
//! shape, literal kind, data type and join shape, plus the small keyword
//! enums.  Nodes are immutable value trees; a parent exclusively owns its
//! children.
//!
//! `AstView` is the mathematical image of `AstNode`: strings become
//! `Seq<char>`, vectors become `Seq`, and every contract of the parser is
//! stated over it.

use vstd::prelude::*;

use crate::chars::upper_seq;

verus! {

broadcast use vstd::string::group_string_axioms;

/// Sign of a signed expression.
#[derive(Clone, Copy, Debug, PartialEq, Eq, Structural)]
pub enum Sign {
    Positive,
    Negative,
}

/// Duplicate-row handling of a `SELECT` or of an aggregate call.
#[derive(Clone, Copy, Debug, PartialEq, Eq, Structural)]
pub enum SelectMode {
    All,
    Distinct,
}

/// Period keyword of an interval literal.
#[derive(Clone, Copy, Debug, PartialEq, Eq, Structural)]
pub enum Interval {
    Year,
    Month,
    Day,
    Hour,
    Minute,
    Second,
}

/// Set operator between two selections.
#[derive(Clone, Copy, Debug, PartialEq, Eq, Structural)]
pub enum Union {
    UnionAll,
    Intersect,
    Minus,
    Except,
}

/// Binary operators, from the algebraic family down to the boolean one.
#[derive(Clone, Copy, Debug, PartialEq, Eq, Structural)]
pub enum Operation {
    /// Numeric multiplication
    Multiply,
    /// Numeric division
    Divide,
    /// Numeric addition
    Add,
    /// Numeric subtraction
    Subtract,
    /// Concatenation of character sequences
    Concat,
    /// Logical and
    And,
    /// Logical or
    Or,
    /// Equality
    Equal,
    /// Inequality
    NotEqual,
    /// Greater than
    GreaterThan,
    /// Greater or equal than
    GreaterOrEqualThan,
    /// Less than
    LessThan,
    /// Less or equal than
    LessOrEqualThan,
}

impl View for Operation {
    type V = Operation;

    open spec fn view(&self) -> Operation {
        *self
    }
}

impl DeepView for Operation {
    type V = Operation;

    open spec fn deep_view(&self) -> Operation {
        *self
    }
}

/// Pins down the keyword and symbol literals that the `from_str` functions
/// compare against: their lengths and leading characters, which makes any
/// two of them provably different.
proof fn lemma_keyword_literals()
    ensures
        "+"@.len() == 1 && "+"@[0] == '+',
        "-"@.len() == 1 && "-"@[0] == '-',
        "*"@.len() == 1 && "*"@[0] == '*',
        "/"@.len() == 1 && "/"@[0] == '/',
        "="@.len() == 1 && "="@[0] == '=',
        ">"@.len() == 1 && ">"@[0] == '>',
        "<"@.len() == 1 && "<"@[0] == '<',
        "||"@.len() == 2 && "||"@[0] == '|',
        "!="@.len() == 2 && "!="@[0] == '!',
        ">="@.len() == 2 && ">="@[0] == '>' && ">="@[1] == '=',
        "<="@.len() == 2 && "<="@[0] == '<' && "<="@[1] == '=',
        "AND"@.len() == 3 && "AND"@[0] == 'A',
        "OR"@.len() == 2 && "OR"@[0] == 'O',
        "DISTINCT"@.len() == 8,
        "ALL"@.len() == 3,
        "YEAR"@.len() == 4 && "YEAR"@[0] == 'Y',
        "MONTH"@.len() == 5 && "MONTH"@[0] == 'M',
        "DAY"@.len() == 3 && "DAY"@[0] == 'D',
        "HOUR"@.len() == 4 && "HOUR"@[0] == 'H',
        "MINUTE"@.len() == 6 && "MINUTE"@[0] == 'M',
        "SECOND"@.len() == 6 && "SECOND"@[0] == 'S',
        "UNION"@.len() == 5 && "UNION"@[0] == 'U',
        "INTERSECT"@.len() == 9,
        "MINUS"@.len() == 5 && "MINUS"@[0] == 'M',
        "EXCEPT"@.len() == 6 && "EXCEPT"@[0] == 'E',
{
    reveal_strlit("+");
    reveal_strlit("-");
    reveal_strlit("*");
    reveal_strlit("/");
    reveal_strlit("=");
    reveal_strlit(">");
    reveal_strlit("<");
    reveal_strlit("||");
    reveal_strlit("!=");
    reveal_strlit(">=");
    reveal_strlit("<=");
    reveal_strlit("AND");
    reveal_strlit("OR");
    reveal_strlit("DISTINCT");
    reveal_strlit("ALL");
    reveal_strlit("YEAR");
    reveal_strlit("MONTH");
    reveal_strlit("DAY");
    reveal_strlit("HOUR");
    reveal_strlit("MINUTE");
    reveal_strlit("SECOND");
    reveal_strlit("UNION");
    reveal_strlit("INTERSECT");
    reveal_strlit("MINUS");
    reveal_strlit("EXCEPT");
}

impl Sign {
    /// The sign denoted by its source symbol.  Any other symbol is outside
    /// the contract: the grammar only ever hands `+` or `-` over.
    pub fn from_str(s: &str) -> (r: Self)
        requires
            s@ == "+"@ || s@ == "-"@,
        ensures
            s@ == "+"@ ==> r == Sign::Positive,
            s@ == "-"@ ==> r == Sign::Negative,
    {
        proof {
            lemma_keyword_literals();
        }
        if crate::chars::str_eq(s, "+") {
            Sign::Positive
        } else {
            Sign::Negative
        }
    }
}

impl SelectMode {
    /// The mode denoted by its keyword, compared without regard to case.
    pub fn from_str(s: &str) -> (r: Self)
        requires
            upper_seq(s@) == "DISTINCT"@ || upper_seq(s@) == "ALL"@,
        ensures
            upper_seq(s@) == "DISTINCT"@ ==> r == SelectMode::Distinct,
            upper_seq(s@) == "ALL"@ ==> r == SelectMode::All,
    {
        proof {
            lemma_keyword_literals();
        }
        if crate::chars::str_upper_eq(s, "DISTINCT") {
            SelectMode::Distinct
        } else {
            SelectMode::All
        }
    }
}

impl Interval {
    /// The period denoted by its keyword, compared without regard to case.
    pub fn from_str(s: &str) -> (r: Self)
        requires
            upper_seq(s@) == "YEAR"@ || upper_seq(s@) == "MONTH"@ || upper_seq(s@) == "DAY"@
                || upper_seq(s@) == "HOUR"@ || upper_seq(s@) == "MINUTE"@ || upper_seq(s@)
                == "SECOND"@,
        ensures
            upper_seq(s@) == "YEAR"@ ==> r == Interval::Year,
            upper_seq(s@) == "MONTH"@ ==> r == Interval::Month,
            upper_seq(s@) == "DAY"@ ==> r == Interval::Day,
            upper_seq(s@) == "HOUR"@ ==> r == Interval::Hour,
            upper_seq(s@) == "MINUTE"@ ==> r == Interval::Minute,
            upper_seq(s@) == "SECOND"@ ==> r == Interval::Second,
    {
        proof {
            lemma_keyword_literals();
        }
        if crate::chars::str_upper_eq(s, "YEAR") {
            Interval::Year
        } else if crate::chars::str_upper_eq(s, "MONTH") {
            Interval::Month
        } else if crate::chars::str_upper_eq(s, "DAY") {
            Interval::Day
        } else if crate::chars::str_upper_eq(s, "HOUR") {
            Interval::Hour
        } else if crate::chars::str_upper_eq(s, "MINUTE") {
            Interval::Minute
        } else {
            Interval::Second
        }
    }
}

/// The position after the run of spaces that starts at `i`.
pub open spec fn space_run_end(s: Seq<char>, i: int) -> int
    decreases s.len() - i when 0 <= i <= s.len()
{
    if i < s.len() && s[i] == ' ' {
        space_run_end(s, i + 1)
    } else {
        i
    }
}

/// The position after the run of non-space characters that starts at `i`.
pub open spec fn word_run_end(s: Seq<char>, i: int) -> int
    decreases s.len() - i when 0 <= i <= s.len()
{
    if i < s.len() && s[i] != ' ' {
        word_run_end(s, i + 1)
    } else {
        i
    }
}

pub proof fn lemma_space_run_end(s: Seq<char>, i: int)
    requires
        0 <= i <= s.len(),
    ensures
        i <= space_run_end(s, i) <= s.len(),
    decreases s.len() - i,
{
    if i < s.len() && s[i] == ' ' {
        lemma_space_run_end(s, i + 1);
    }
}

pub proof fn lemma_word_run_end(s: Seq<char>, i: int)
    requires
        0 <= i <= s.len(),
    ensures
        i <= word_run_end(s, i) <= s.len(),
    decreases s.len() - i,
{
    if i < s.len() && s[i] != ' ' {
        lemma_word_run_end(s, i + 1);
    }
}

/// The space-separated words of `s`, in order, empty runs dropped.
pub open spec fn words_from(s: Seq<char>, i: int) -> Seq<Seq<char>>
    decreases s.len() - i when 0 <= i <= s.len()
{
    if i >= s.len() {
        Seq::empty()
    } else if s[i] == ' ' {
        words_from(s, i + 1)
    } else {
        proof {
            lemma_word_run_end(s, i + 1);
        }
        seq![s.subrange(i, word_run_end(s, i))] + words_from(s, word_run_end(s, i))
    }
}

/// The space-separated words of `s`.
pub open spec fn words_of(s: Seq<char>) -> Seq<Seq<char>> {
    words_from(s, 0)
}

impl Union {
    /// The set operator denoted by its keyword or keyword pair, compared
    /// word by word without regard to case or surrounding spaces.
    pub fn from_str(s: &str) -> (r: Self)
        requires
            ({
                let w = words_of(s@);
                ||| (w.len() == 2 && upper_seq(w[0]) == "UNION"@ && upper_seq(w[1]) == "ALL"@)
                ||| (w.len() == 1 && (upper_seq(w[0]) == "UNION"@ || upper_seq(w[0])
                    == "INTERSECT"@ || upper_seq(w[0]) == "MINUS"@ || upper_seq(w[0])
                    == "EXCEPT"@))
            }),
        ensures
            ({
                let w = words_of(s@);
                &&& (w.len() == 2 || upper_seq(w[0]) == "UNION"@) ==> r == Union::UnionAll
                &&& (w.len() == 1 && upper_seq(w[0]) == "INTERSECT"@) ==> r == Union::Intersect
                &&& (w.len() == 1 && upper_seq(w[0]) == "MINUS"@) ==> r == Union::Minus
                &&& (w.len() == 1 && upper_seq(w[0]) == "EXCEPT"@) ==> r == Union::Except
            }),
    {
        proof {
            lemma_keyword_literals();
        }
        let first = first_word(s, 0);
        match first {
            None => {
                proof {
                    lemma_no_word(s@, 0);
                    assert(false);
                }
                Union::UnionAll
            },
            Some((a, b)) => {
                let w0 = s.substring_char(a, b);
                proof {
                    lemma_first_word(s@, 0, a as int, b as int);
                }
                if crate::chars::str_upper_eq(w0, "INTERSECT") {
                    Union::Intersect
                } else if crate::chars::str_upper_eq(w0, "MINUS") {
                    Union::Minus
                } else if crate::chars::str_upper_eq(w0, "EXCEPT") {
                    Union::Except
                } else {
                    Union::UnionAll
                }
            },
        }
    }
}

/// Finds the first word at or after position `i`: its start and end.
fn first_word(s: &str, i: usize) -> (r: Option<(usize, usize)>)
    requires
        i <= s@.len(),
    ensures
        match r {
            None => space_run_end(s@, i as int) == s@.len(),
            Some((a, b)) => {
                &&& i <= a < b <= s@.len()
                &&& a == space_run_end(s@, i as int)
                &&& b == word_run_end(s@, a as int)
            },
        },
{
    let n = s.unicode_len();
    let mut a = i;
    while a < n && s.get_char(a) == ' '
        invariant
            i <= a <= n,
            n == s@.len(),
            space_run_end(s@, i as int) == space_run_end(s@, a as int),
        decreases n - a,
    {
        a = a + 1;
    }
    if a >= n {
        return None;
    }
    let mut b = a;
    while b < n && s.get_char(b) != ' '
        invariant
            a <= b <= n,
            n == s@.len(),
            word_run_end(s@, a as int) == word_run_end(s@, b as int),
        decreases n - b,
    {
        b = b + 1;
    }
    Some((a, b))
}

proof fn lemma_no_word(s: Seq<char>, i: int)
    requires
        0 <= i <= s.len(),
        space_run_end(s, i) == s.len(),
    ensures
        words_from(s, i).len() == 0,
    decreases s.len() - i,
{
    if i < s.len() && s[i] == ' ' {
        lemma_no_word(s, i + 1);
    }
}

proof fn lemma_first_word(s: Seq<char>, i: int, a: int, b: int)
    requires
        0 <= i <= s.len(),
        a == space_run_end(s, i),
        a < s.len(),
        b == word_run_end(s, a),
    ensures
        words_from(s, i).len() >= 1,
        words_from(s, i)[0] == s.subrange(a, b),
        words_from(s, i).subrange(1, words_from(s, i).len() as int) == words_from(s, b),
    decreases s.len() - i,
{
    lemma_space_run_end(s, i);
    lemma_word_run_end(s, a);
    if i < s.len() && s[i] == ' ' {
        lemma_first_word(s, i + 1, a, b);
    } else {
        assert(words_from(s, i) == seq![s.subrange(i, word_run_end(s, i))] + words_from(
            s,
            word_run_end(s, i),
        ));
        assert(words_from(s, i).subrange(1, words_from(s, i).len() as int) =~= words_from(s, b));
    }
}

impl Operation {
    /// The operation denoted by its source symbol; the word operators are
    /// compared without regard to case.
    pub fn from_str(s: &str) -> (r: Self)
        requires
            upper_seq(s@) == "*"@ || upper_seq(s@) == "/"@ || upper_seq(s@) == "+"@ || upper_seq(
                s@,
            ) == "-"@ || upper_seq(s@) == "||"@ || upper_seq(s@) == "AND"@ || upper_seq(s@)
                == "OR"@ || upper_seq(s@) == "="@ || upper_seq(s@) == "!="@ || upper_seq(s@)
                == ">"@ || upper_seq(s@) == ">="@ || upper_seq(s@) == "<"@ || upper_seq(s@)
                == "<="@,
        ensures
            upper_seq(s@) == "*"@ ==> r == Operation::Multiply,
            upper_seq(s@) == "/"@ ==> r == Operation::Divide,
            upper_seq(s@) == "+"@ ==> r == Operation::Add,
            upper_seq(s@) == "-"@ ==> r == Operation::Subtract,
            upper_seq(s@) == "||"@ ==> r == Operation::Concat,
            upper_seq(s@) == "AND"@ ==> r == Operation::And,
            upper_seq(s@) == "OR"@ ==> r == Operation::Or,
            upper_seq(s@) == "="@ ==> r == Operation::Equal,
            upper_seq(s@) == "!="@ ==> r == Operation::NotEqual,
            upper_seq(s@) == ">"@ ==> r == Operation::GreaterThan,
            upper_seq(s@) == ">="@ ==> r == Operation::GreaterOrEqualThan,
            upper_seq(s@) == "<"@ ==> r == Operation::LessThan,
            upper_seq(s@) == "<="@ ==> r == Operation::LessOrEqualThan,
    {
        proof {
            lemma_keyword_literals();
        }
        if crate::chars::str_upper_eq(s, "*") {
            Operation::Multiply
        } else if crate::chars::str_upper_eq(s, "/") {
            Operation::Divide
        } else if crate::chars::str_upper_eq(s, "+") {
            Operation::Add
        } else if crate::chars::str_upper_eq(s, "-") {
            Operation::Subtract
        } else if crate::chars::str_upper_eq(s, "||") {
            Operation::Concat
        } else if crate::chars::str_upper_eq(s, "AND") {
            Operation::And
        } else if crate::chars::str_upper_eq(s, "OR") {
            Operation::Or
        } else if crate::chars::str_upper_eq(s, "=") {
            Operation::Equal
        } else if crate::chars::str_upper_eq(s, "!=") {
            Operation::NotEqual
        } else if crate::chars::str_upper_eq(s, ">") {
            Operation::GreaterThan
        } else if crate::chars::str_upper_eq(s, ">=") {
            Operation::GreaterOrEqualThan
        } else if crate::chars::str_upper_eq(s, "<") {
            Operation::LessThan
        } else {
            Operation::LessOrEqualThan
        }
    }
}

/// One node of the abstract syntax tree.
#[derive(Debug, PartialEq, Eq)]
pub enum AstNode {
    // Empty
    Empty,
    // Comment
    Comment { s: String },
    // Select statement
    SelectStatement {
        common: Vec<AstNode>,
        mode: SelectMode,
        columns: Vec<AstNode>,
        table_exprs: Vec<AstNode>,
        where_expr: Option<Box<AstNode>>,
        group_by: Option<Box<AstNode>>,
    },
    SelectUnionStatement { left: Box<AstNode>, op: Union, right: Box<AstNode> },
    SelectMode { mode: SelectMode },
    WithClause { identifier: Box<AstNode>, columns: Vec<AstNode>, query: Box<AstNode> },
    GroupBy { groupings: Vec<AstNode>, having: Option<Box<AstNode>> },
    // Columns
    Column { expr: Box<AstNode> },
    AllColumns,
    AllColumnsFrom { schema: Box<AstNode> },
    NamedColumn { expr: Box<AstNode>, alias: Option<String> },
    // Identifiers
    Identifier { s: String },
    QualifiedIdentifier { s: Vec<AstNode> },
    // Literals
    IntegerLiteral { s: String },
    DecimalLiteral { s: String },
    FloatLiteral { s: String },
    StringLiteral { s: String },
    BooleanLiteral { s: String },
    IntervalLiteral {
        interval: Box<AstNode>,
        period: Interval,
        precision: Vec<AstNode>,
        convert_to: Option<Interval>,
        convert_precision: Option<Box<AstNode>>,
    },
    // Joins
    JoinClause { join_type: Box<AstNode>, table_expr: Box<AstNode>, constraint: Box<AstNode> },
    InnerJoin,
    LeftOuterJoin,
    RightOuterJoin,
    FullOuterJoin,
    JoinConstraintOn { expr: Box<AstNode> },
    JoinConstraintUsing { columns: Vec<AstNode> },
    // Tables
    NamedTableExpression { name: Box<AstNode>, alias: Option<String> },
    // Expressions
    SignedExpression { sign: Sign, expr: Box<AstNode> },
    Expression { left: Box<AstNode>, op: Operation, right: Box<AstNode> },
    CaseExpression {
        expr: Option<Box<AstNode>>,
        when_expr: Vec<AstNode>,
        else_expr: Option<Box<AstNode>>,
    },
    IsNullExpression { expr: Box<AstNode>, is_null: bool },
    InExpression { expr: Box<AstNode>, exprs: Vec<AstNode>, not_in: bool },
    WhenClause { guard: Box<AstNode>, body: Box<AstNode> },
    // Data types
    /// boolean data type
    BooleanType,
    /// char
    CharType { n: Box<AstNode> },
    /// date
    DateType,
    /// decimal
    DecimalType { p: Box<AstNode>, s: Box<AstNode> },
    /// double precision
    DoubleType,
    /// timestamp
    TimestampType,
    /// local timestamp
    LocalTimestampType,
    /// varchar
    VarcharType { n: Box<AstNode> },
    // Function expressions
    CoalesceFunction { exprs: Vec<AstNode> },
    CastFunction { expr: Box<AstNode>, data_type: Box<AstNode> },
    RightFunction { string: Box<AstNode>, length: Box<AstNode> },
    ReplaceFunction {
        string: Box<AstNode>,
        search_string: Box<AstNode>,
        replace_string: Option<Box<AstNode>>,
    },
    SubstringFunction {
        string: Box<AstNode>,
        position: Box<AstNode>,
        length: Option<Box<AstNode>>,
    },
    MaxFunction { mode: Box<AstNode>, expr: Box<AstNode> },
    MinFunction { mode: Box<AstNode>, expr: Box<AstNode> },
    SumFunction { mode: Box<AstNode>, expr: Box<AstNode> },
    ToDateFunction { string: Box<AstNode>, format: Option<Box<AstNode>> },
    PowerFunction { base: Box<AstNode>, exponent: Box<AstNode> },
    ConcatFunction { exprs: Vec<AstNode> },
    CountFunction { mode: Box<AstNode>, columns: Vec<AstNode> },
    DateTruncFunction { format: Box<AstNode>, datetime: Box<AstNode> },
    MonthsBetweenFunction { datetime1: Box<AstNode>, datetime2: Box<AstNode> },
    UnknownFunction { name: Box<AstNode>, exprs: Vec<AstNode> },
}

/// The mathematical image of an `AstNode`: the same tree with every `String`
/// replaced by a `Seq<char>` and every `Vec` by a `Seq`.
pub enum AstView {
    Empty,
    Comment { s: Seq<char> },
    SelectStatement {
        common: Seq<AstView>,
        mode: SelectMode,
        columns: Seq<AstView>,
        table_exprs: Seq<AstView>,
        where_expr: Option<Box<AstView>>,
        group_by: Option<Box<AstView>>,
    },
    SelectUnionStatement { left: Box<AstView>, op: Union, right: Box<AstView> },
    SelectMode { mode: SelectMode },
    WithClause { identifier: Box<AstView>, columns: Seq<AstView>, query: Box<AstView> },
    GroupBy { groupings: Seq<AstView>, having: Option<Box<AstView>> },
    Column { expr: Box<AstView> },
    AllColumns,
    AllColumnsFrom { schema: Box<AstView> },
    NamedColumn { expr: Box<AstView>, alias: Option<Seq<char>> },
    Identifier { s: Seq<char> },
    QualifiedIdentifier { s: Seq<AstView> },
    IntegerLiteral { s: Seq<char> },
    DecimalLiteral { s: Seq<char> },
    FloatLiteral { s: Seq<char> },
    StringLiteral { s: Seq<char> },
    BooleanLiteral { s: Seq<char> },
    IntervalLiteral {
        interval: Box<AstView>,
        period: Interval,
        precision: Seq<AstView>,
        convert_to: Option<Interval>,
        convert_precision: Option<Box<AstView>>,
    },
    JoinClause { join_type: Box<AstView>, table_expr: Box<AstView>, constraint: Box<AstView> },
    InnerJoin,
    LeftOuterJoin,
    RightOuterJoin,
    FullOuterJoin,
    JoinConstraintOn { expr: Box<AstView> },
    JoinConstraintUsing { columns: Seq<AstView> },
    NamedTableExpression { name: Box<AstView>, alias: Option<Seq<char>> },
    SignedExpression { sign: Sign, expr: Box<AstView> },
    Expression { left: Box<AstView>, op: Operation, right: Box<AstView> },
    CaseExpression {
        expr: Option<Box<AstView>>,
        when_expr: Seq<AstView>,
        else_expr: Option<Box<AstView>>,
    },
    IsNullExpression { expr: Box<AstView>, is_null: bool },
    InExpression { expr: Box<AstView>, exprs: Seq<AstView>, not_in: bool },
    WhenClause { guard: Box<AstView>, body: Box<AstView> },
    BooleanType,
    CharType { n: Box<AstView> },
    DateType,
    DecimalType { p: Box<AstView>, s: Box<AstView> },
    DoubleType,
    TimestampType,
    LocalTimestampType,
    VarcharType { n: Box<AstView> },
    CoalesceFunction { exprs: Seq<AstView> },
    CastFunction { expr: Box<AstView>, data_type: Box<AstView> },
    RightFunction { string: Box<AstView>, length: Box<AstView> },
    ReplaceFunction {
        string: Box<AstView>,
        search_string: Box<AstView>,
        replace_string: Option<Box<AstView>>,
    },
    SubstringFunction {
        string: Box<AstView>,
        position: Box<AstView>,
        length: Option<Box<AstView>>,
    },
    MaxFunction { mode: Box<AstView>, expr: Box<AstView> },
    MinFunction { mode: Box<AstView>, expr: Box<AstView> },
    SumFunction { mode: Box<AstView>, expr: Box<AstView> },
    ToDateFunction { string: Box<AstView>, format: Option<Box<AstView>> },
    PowerFunction { base: Box<AstView>, exponent: Box<AstView> },
    ConcatFunction { exprs: Seq<AstView> },
    CountFunction { mode: Box<AstView>, columns: Seq<AstView> },
    DateTruncFunction { format: Box<AstView>, datetime: Box<AstView> },
    MonthsBetweenFunction { datetime1: Box<AstView>, datetime2: Box<AstView> },
    UnknownFunction { name: Box<AstView>, exprs: Seq<AstView> },
}

/// The view of one node.
pub open spec fn view_node(n: AstNode) -> AstView
    decreases n,
{
    match n {
        AstNode::Empty => AstView::Empty,
        AstNode::Comment { s } => AstView::Comment { s: s@ },
        AstNode::SelectStatement { common, mode, columns, table_exprs, where_expr, group_by } => AstView::SelectStatement {
            common: view_nodes(common@),
            mode,
            columns: view_nodes(columns@),
            table_exprs: view_nodes(table_exprs@),
            where_expr: view_opt(where_expr),
            group_by: view_opt(group_by),
        },
        AstNode::SelectUnionStatement { left, op, right } => AstView::SelectUnionStatement {
            left: Box::new(view_node(*left)),
            op,
            right: Box::new(view_node(*right)),
        },
        AstNode::SelectMode { mode } => AstView::SelectMode { mode },
        AstNode::WithClause { identifier, columns, query } => AstView::WithClause {
            identifier: Box::new(view_node(*identifier)),
            columns: view_nodes(columns@),
            query: Box::new(view_node(*query)),
        },
        AstNode::GroupBy { groupings, having } => AstView::GroupBy {
            groupings: view_nodes(groupings@),
            having: view_opt(having),
        },
        AstNode::Column { expr } => AstView::Column { expr: Box::new(view_node(*expr)) },
        AstNode::AllColumns => AstView::AllColumns,
        AstNode::AllColumnsFrom { schema } => AstView::AllColumnsFrom {
            schema: Box::new(view_node(*schema)),
        },
        AstNode::NamedColumn { expr, alias } => AstView::NamedColumn {
            expr: Box::new(view_node(*expr)),
            alias: match alias {
                Option::None => Option::None,
                Option::Some(a) => Option::Some(a@),
            },
        },
        AstNode::Identifier { s } => AstView::Identifier { s: s@ },
        AstNode::QualifiedIdentifier { s } => AstView::QualifiedIdentifier { s: view_nodes(s@) },
        AstNode::IntegerLiteral { s } => AstView::IntegerLiteral { s: s@ },
        AstNode::DecimalLiteral { s } => AstView::DecimalLiteral { s: s@ },
        AstNode::FloatLiteral { s } => AstView::FloatLiteral { s: s@ },
        AstNode::StringLiteral { s } => AstView::StringLiteral { s: s@ },
        AstNode::BooleanLiteral { s } => AstView::BooleanLiteral { s: s@ },
        AstNode::IntervalLiteral { interval, period, precision, convert_to, convert_precision } => AstView::IntervalLiteral {
            interval: Box::new(view_node(*interval)),
            period,
            precision: view_nodes(precision@),
            convert_to,
            convert_precision: view_opt(convert_precision),
        },
        AstNode::JoinClause { join_type, table_expr, constraint } => AstView::JoinClause {
            join_type: Box::new(view_node(*join_type)),
            table_expr: Box::new(view_node(*table_expr)),
            constraint: Box::new(view_node(*constraint)),
        },
        AstNode::InnerJoin => AstView::InnerJoin,
        AstNode::LeftOuterJoin => AstView::LeftOuterJoin,
        AstNode::RightOuterJoin => AstView::RightOuterJoin,
        AstNode::FullOuterJoin => AstView::FullOuterJoin,
        AstNode::JoinConstraintOn { expr } => AstView::JoinConstraintOn {
            expr: Box::new(view_node(*expr)),
        },
        AstNode::JoinConstraintUsing { columns } => AstView::JoinConstraintUsing {
            columns: view_nodes(columns@),
        },
        AstNode::NamedTableExpression { name, alias } => AstView::NamedTableExpression {
            name: Box::new(view_node(*name)),
            alias: match alias {
                Option::None => Option::None,
                Option::Some(a) => Option::Some(a@),
            },
        },
        AstNode::SignedExpression { sign, expr } => AstView::SignedExpression {
            sign,
            expr: Box::new(view_node(*expr)),
        },
        AstNode::Expression { left, op, right } => AstView::Expression {
            left: Box::new(view_node(*left)),
            op,
            right: Box::new(view_node(*right)),
        },
        AstNode::CaseExpression { expr, when_expr, else_expr } => AstView::CaseExpression {
            expr: view_opt(expr),
            when_expr: view_nodes(when_expr@),
            else_expr: view_opt(else_expr),
        },
        AstNode::IsNullExpression { expr, is_null } => AstView::IsNullExpression {
            expr: Box::new(view_node(*expr)),
            is_null,
        },
        AstNode::InExpression { expr, exprs, not_in } => AstView::InExpression {
            expr: Box::new(view_node(*expr)),
            exprs: view_nodes(exprs@),
            not_in,
        },
        AstNode::WhenClause { guard, body } => AstView::WhenClause {
            guard: Box::new(view_node(*guard)),
            body: Box::new(view_node(*body)),
        },
        AstNode::BooleanType => AstView::BooleanType,
        AstNode::CharType { n } => AstView::CharType { n: Box::new(view_node(*n)) },
        AstNode::DateType => AstView::DateType,
        AstNode::DecimalType { p, s } => AstView::DecimalType {
            p: Box::new(view_node(*p)),
            s: Box::new(view_node(*s)),
        },
        AstNode::DoubleType => AstView::DoubleType,
        AstNode::TimestampType => AstView::TimestampType,
        AstNode::LocalTimestampType => AstView::LocalTimestampType,
        AstNode::VarcharType { n } => AstView::VarcharType { n: Box::new(view_node(*n)) },
        AstNode::CoalesceFunction { exprs } => AstView::CoalesceFunction {
            exprs: view_nodes(exprs@),
        },
        AstNode::CastFunction { expr, data_type } => AstView::CastFunction {
            expr: Box::new(view_node(*expr)),
            data_type: Box::new(view_node(*data_type)),
        },
        AstNode::RightFunction { string, length } => AstView::RightFunction {
            string: Box::new(view_node(*string)),
            length: Box::new(view_node(*length)),
        },
        AstNode::ReplaceFunction { string, search_string, replace_string } => AstView::ReplaceFunction {
            string: Box::new(view_node(*string)),
            search_string: Box::new(view_node(*search_string)),
            replace_string: view_opt(replace_string),
        },
        AstNode::SubstringFunction { string, position, length } => AstView::SubstringFunction {
            string: Box::new(view_node(*string)),
            position: Box::new(view_node(*position)),
            length: view_opt(length),
        },
        AstNode::MaxFunction { mode, expr } => AstView::MaxFunction {
            mode: Box::new(view_node(*mode)),
            expr: Box::new(view_node(*expr)),
        },
        AstNode::MinFunction { mode, expr } => AstView::MinFunction {
            mode: Box::new(view_node(*mode)),
            expr: Box::new(view_node(*expr)),
        },
        AstNode::SumFunction { mode, expr } => AstView::SumFunction {
            mode: Box::new(view_node(*mode)),
            expr: Box::new(view_node(*expr)),
        },
        AstNode::ToDateFunction { string, format } => AstView::ToDateFunction {
            string: Box::new(view_node(*string)),
            format: view_opt(format),
        },
        AstNode::PowerFunction { base, exponent } => AstView::PowerFunction {
            base: Box::new(view_node(*base)),
            exponent: Box::new(view_node(*exponent)),
        },
        AstNode::ConcatFunction { exprs } => AstView::ConcatFunction { exprs: view_nodes(exprs@) },
        AstNode::CountFunction { mode, columns } => AstView::CountFunction {
            mode: Box::new(view_node(*mode)),
            columns: view_nodes(columns@),
        },
        AstNode::DateTruncFunction { format, datetime } => AstView::DateTruncFunction {
            format: Box::new(view_node(*format)),
            datetime: Box::new(view_node(*datetime)),
        },
        AstNode::MonthsBetweenFunction { datetime1, datetime2 } => AstView::MonthsBetweenFunction {
            datetime1: Box::new(view_node(*datetime1)),
            datetime2: Box::new(view_node(*datetime2)),
        },
        AstNode::UnknownFunction { name, exprs } => AstView::UnknownFunction {
            name: Box::new(view_node(*name)),
            exprs: view_nodes(exprs@),
        },
    }
}

/// The views of a sequence of nodes, element by element.
pub open spec fn view_nodes(s: Seq<AstNode>) -> Seq<AstView>
    decreases s,
{
    if s.len() == 0 {
        Seq::empty()
    } else {
        seq![view_node(s[0])] + view_nodes(s.drop_first())
    }
}

/// The view of an optional boxed node.
pub open spec fn view_opt(o: Option<Box<AstNode>>) -> Option<Box<AstView>>
    decreases o,
{
    match o {
        Option::None => Option::None,
        Option::Some(b) => Option::Some(Box::new(view_node(*b))),
    }
}

impl View for AstNode {
    type V = AstView;

    open spec fn view(&self) -> AstView {
        view_node(*self)
    }
}

impl DeepView for AstNode {
    type V = AstView;

    open spec fn deep_view(&self) -> AstView {
        view_node(*self)
    }
}

pub broadcast proof fn lemma_view_nodes_len(s: Seq<AstNode>)
    ensures
        (#[trigger] view_nodes(s)).len() == s.len(),
    decreases s,
{
    if s.len() > 0 {
        lemma_view_nodes_len(s.drop_first());
    }
}

pub broadcast proof fn lemma_view_nodes_index(s: Seq<AstNode>, i: int)
    requires
        0 <= i < s.len(),
    ensures
        #[trigger] view_nodes(s)[i] == view_node(s[i]),
    decreases s,
{
    lemma_view_nodes_len(s);
    if i > 0 {
        lemma_view_nodes_index(s.drop_first(), i - 1);
    }
}

/// One unfolding step of `view_opt`, available wherever the term appears;
/// nested occurrences inside `view_node`'s own unfolding are otherwise out
/// of the prover's fuel.
pub broadcast proof fn lemma_view_opt_unfold(o: Option<Box<AstNode>>)
    ensures
        #[trigger] view_opt(o) == (match o {
            Option::None => Option::None::<Box<AstView>>,
            Option::Some(b) => Option::Some(Box::new(view_node(*b))),
        }),
{
}

/// The element-wise deep view of a vector of nodes is `view_nodes` of its
/// view; the two spellings denote one sequence.
pub broadcast proof fn lemma_deep_view_nodes(v: Vec<AstNode>)
    ensures
        #[trigger] v.deep_view() == view_nodes(v@),
{
    lemma_view_nodes_len(v@);
    assert forall|i: int| 0 <= i < v@.len() implies view_nodes(v@)[i] == v.deep_view()[i] by {
        lemma_view_nodes_index(v@, i);
    }
    assert(v.deep_view() =~= view_nodes(v@));
}

} // verus!

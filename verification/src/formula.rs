//! Token and error types of the formula language, and the formula scanner.

use vstd::prelude::*;
use vstd::string::StrSliceExecFns;
use vstd::string::StringExecFns;

use crate::markup::{
    digits_val, is_digit, lemma_digits_val_grows, lemma_digits_val_step, match_at,
};

verus! {

/// One side of an open-range expression `A to B`: either a bracketed
/// parameter reference or an integer literal.
#[derive(Debug, Clone, Copy, PartialEq, Eq, Structural)]
pub enum ToRangeValue {
    Parameter { index: usize },
    Integer { value: i32 },
}

/// One inclusive interval of a range-set literal; `2` alone stands for `2..2`.
#[derive(Debug, Clone, Copy, PartialEq, Eq, Structural)]
pub struct RangeItem {
    pub start: i32,
    pub end: i32,
}

/// The kind of one formula token. A numeric literal with a decimal point is a
/// `Double`; its digits are kept only as the token's source text, since the
/// decoder never evaluates formulas.
#[derive(Debug, Clone, PartialEq, Eq)]
pub enum FormulaTokenKind {
    OpenParenthesis,
    CloseParenthesis,
    Substract,
    Add,
    Multiply,
    Divide,
    DivideWithRemain,
    Modulo,
    In,
    And,
    Or,
    Greater,
    GreaterOrEqual,
    Lesser,
    LesserOrEqual,
    Equal,
    NotEqual,
    Assignment,
    Integer { value: i32 },
    Double,
    Parameter { value: usize },
    Range { value: Vec<RangeItem> },
    ToRange { start: ToRangeValue, end: ToRangeValue },
}

/// Mathematical model of a token kind: `Vec` contents become sequences.
pub enum FormulaTokenKindView {
    OpenParenthesis,
    CloseParenthesis,
    Substract,
    Add,
    Multiply,
    Divide,
    DivideWithRemain,
    Modulo,
    In,
    And,
    Or,
    Greater,
    GreaterOrEqual,
    Lesser,
    LesserOrEqual,
    Equal,
    NotEqual,
    Assignment,
    Integer { value: i32 },
    Double,
    Parameter { value: usize },
    Range { value: Seq<RangeItem> },
    ToRange { start: ToRangeValue, end: ToRangeValue },
}

impl View for FormulaTokenKind {
    type V = FormulaTokenKindView;

    open spec fn view(&self) -> FormulaTokenKindView {
        match self {
            FormulaTokenKind::OpenParenthesis => FormulaTokenKindView::OpenParenthesis,
            FormulaTokenKind::CloseParenthesis => FormulaTokenKindView::CloseParenthesis,
            FormulaTokenKind::Substract => FormulaTokenKindView::Substract,
            FormulaTokenKind::Add => FormulaTokenKindView::Add,
            FormulaTokenKind::Multiply => FormulaTokenKindView::Multiply,
            FormulaTokenKind::Divide => FormulaTokenKindView::Divide,
            FormulaTokenKind::DivideWithRemain => FormulaTokenKindView::DivideWithRemain,
            FormulaTokenKind::Modulo => FormulaTokenKindView::Modulo,
            FormulaTokenKind::In => FormulaTokenKindView::In,
            FormulaTokenKind::And => FormulaTokenKindView::And,
            FormulaTokenKind::Or => FormulaTokenKindView::Or,
            FormulaTokenKind::Greater => FormulaTokenKindView::Greater,
            FormulaTokenKind::GreaterOrEqual => FormulaTokenKindView::GreaterOrEqual,
            FormulaTokenKind::Lesser => FormulaTokenKindView::Lesser,
            FormulaTokenKind::LesserOrEqual => FormulaTokenKindView::LesserOrEqual,
            FormulaTokenKind::Equal => FormulaTokenKindView::Equal,
            FormulaTokenKind::NotEqual => FormulaTokenKindView::NotEqual,
            FormulaTokenKind::Assignment => FormulaTokenKindView::Assignment,
            FormulaTokenKind::Integer { value } => FormulaTokenKindView::Integer { value: *value },
            FormulaTokenKind::Double => FormulaTokenKindView::Double,
            FormulaTokenKind::Parameter { value } => FormulaTokenKindView::Parameter {
                value: *value,
            },
            FormulaTokenKind::Range { value } => FormulaTokenKindView::Range { value: value@ },
            FormulaTokenKind::ToRange { start, end } => FormulaTokenKindView::ToRange {
                start: *start,
                end: *end,
            },
        }
    }
}

/// One token together with the exact source text it was scanned from.
#[derive(Debug, Clone, PartialEq, Eq)]
pub struct FormulaToken {
    pub kind: FormulaTokenKind,
    pub value: String,
}

pub struct FormulaTokenView {
    pub kind: FormulaTokenKindView,
    pub value: Seq<char>,
}

impl View for FormulaToken {
    type V = FormulaTokenView;

    open spec fn view(&self) -> FormulaTokenView {
        FormulaTokenView { kind: self.kind@, value: self.value@ }
    }
}

/// A scanned formula: the ordered token sequence.
#[derive(Debug, Clone, PartialEq, Eq)]
pub struct Formula {
    pub tokens: Vec<FormulaToken>,
}

/// The models of a sequence of tokens.
pub open spec fn toks_view(v: Seq<FormulaToken>) -> Seq<FormulaTokenView> {
    v.map_values(|t: FormulaToken| t@)
}

impl View for Formula {
    type V = Seq<FormulaTokenView>;

    open spec fn view(&self) -> Seq<FormulaTokenView> {
        toks_view(self.tokens@)
    }
}

impl Default for Formula {
    /// The empty formula, the value scanned from empty text.
    fn default() -> (r: Formula)
        ensures
            r@ == Seq::<FormulaTokenView>::empty(),
    {
        Formula { tokens: Vec::new() }
    }
}

/// Why the scanner rejected the text.
#[derive(Debug, Clone, PartialEq, Eq)]
pub enum FormulaErrorKind {
    UnexpectedToken { found: char, expected: Option<String> },
    ExpectedInteger,
    ExpectedDouble,
    UnexpectedEOF,
}

pub enum FormulaErrorKindView {
    UnexpectedToken { found: char, expected: Option<Seq<char>> },
    ExpectedInteger,
    ExpectedDouble,
    UnexpectedEOF,
}

impl View for FormulaErrorKind {
    type V = FormulaErrorKindView;

    open spec fn view(&self) -> FormulaErrorKindView {
        match self {
            FormulaErrorKind::UnexpectedToken { found, expected } => {
                FormulaErrorKindView::UnexpectedToken {
                    found: *found,
                    expected: match expected {
                        Some(s) => Some(s@),
                        None => None,
                    },
                }
            },
            FormulaErrorKind::ExpectedInteger => FormulaErrorKindView::ExpectedInteger,
            FormulaErrorKind::ExpectedDouble => FormulaErrorKindView::ExpectedDouble,
            FormulaErrorKind::UnexpectedEOF => FormulaErrorKindView::UnexpectedEOF,
        }
    }
}

/// A scan failure, with the character position it was found at.
#[derive(Debug, Clone, PartialEq, Eq)]
pub struct FormulaError {
    pub position: usize,
    pub kind: FormulaErrorKind,
}

pub struct FormulaErrorView {
    pub position: int,
    pub kind: FormulaErrorKindView,
}

impl View for FormulaError {
    type V = FormulaErrorView;

    open spec fn view(&self) -> FormulaErrorView {
        FormulaErrorView { position: self.position as int, kind: self.kind@ }
    }
}

/// How the numeric-literal scan ends: at `end` (with whether a decimal point
/// was seen), or at a second decimal point, which is an error.
pub enum NumScan {
    End { end: int, dotted: bool },
    BadDot { at: int },
}

/// The numeric-literal scan from `pos`, for a literal that began at `start`:
/// digits continue it, a decimal point continues it once (but a `..` range
/// separator ends it), a minus sign continues it only at the very start, and
/// anything else ends it.
pub open spec fn num_scan(s: Seq<char>, start: int, pos: int, dotted: bool) -> NumScan
    decreases s.len() - pos,
{
    if pos < 0 || pos >= s.len() {
        NumScan::End { end: pos, dotted }
    } else {
        let c = s[pos];
        if is_digit(c) {
            num_scan(s, start, pos + 1, dotted)
        } else if c == '.' {
            if pos + 1 < s.len() && s[pos + 1] == '.' {
                NumScan::End { end: pos, dotted }
            } else if dotted {
                NumScan::BadDot { at: pos }
            } else {
                num_scan(s, start, pos + 1, true)
            }
        } else if c == '-' {
            if pos != start {
                NumScan::End { end: pos, dotted }
            } else {
                num_scan(s, start, pos + 1, dotted)
            }
        } else {
            NumScan::End { end: pos, dotted }
        }
    }
}

/// A nonempty run of decimal digits.
pub open spec fn is_digit_run(ds: Seq<char>) -> bool {
    ds.len() > 0 && forall|j: int| 0 <= j < ds.len() ==> #[trigger] is_digit(ds[j])
}

/// Does the text denote an integer: an optional leading minus sign, then at
/// least one digit and nothing else?
pub open spec fn is_int_literal(ds: Seq<char>) -> bool {
    if ds.len() > 0 && ds[0] == '-' {
        is_digit_run(ds.drop_first())
    } else {
        is_digit_run(ds)
    }
}

/// The integer an integer literal denotes.
pub open spec fn int_lit_val(ds: Seq<char>) -> int
    recommends
        is_int_literal(ds),
{
    if ds.len() > 0 && ds[0] == '-' {
        -digits_val(ds.drop_first())
    } else {
        digits_val(ds)
    }
}

/// Does the text hold at least one digit? This is exactly when a scanned
/// dotted literal is a readable floating-point number.
pub open spec fn seq_has_digit(ds: Seq<char>) -> bool {
    exists|j: int| 0 <= j < ds.len() && #[trigger] is_digit(ds[j])
}

/// What trying a numeric literal at `start` yields: a token and its end, a
/// positioned error, or nothing when no literal can be read there. A literal
/// with a decimal point is a `Double`; one without must fit the 32-bit signed
/// range, else no literal is read.
pub open spec fn spec_try_number(s: Seq<char>, start: int) -> Option<
    Result<(FormulaTokenView, int), FormulaErrorView>,
> {
    match num_scan(s, start, start, false) {
        NumScan::BadDot { at } => Some(
            Err(
                FormulaErrorView {
                    position: at,
                    kind: FormulaErrorKindView::UnexpectedToken { found: '.', expected: None },
                },
            ),
        ),
        NumScan::End { end, dotted } => {
            if 0 <= start <= end <= s.len() {
                let ds = s.subrange(start, end);
                if dotted {
                    if seq_has_digit(ds) {
                        Some(
                            Ok(
                                (
                                    FormulaTokenView { kind: FormulaTokenKindView::Double, value: ds },
                                    end,
                                ),
                            ),
                        )
                    } else {
                        None
                    }
                } else {
                    if is_int_literal(ds) && -0x8000_0000 <= int_lit_val(ds) <= 0x7FFF_FFFF {
                        Some(
                            Ok(
                                (
                                    FormulaTokenView {
                                        kind: FormulaTokenKindView::Integer {
                                            value: int_lit_val(ds) as i32,
                                        },
                                        value: ds,
                                    },
                                    end,
                                ),
                            ),
                        )
                    } else {
                        None
                    }
                }
            } else {
                None
            }
        },
    }
}

/// What trying a parameter reference `[p<integer>]` at `start` yields. The
/// reference must open with the two literal characters, then hold an integer
/// literal, then close; a reference left open at the end of input is an
/// unexpected-end error.
pub open spec fn spec_try_fparameter(s: Seq<char>, start: int) -> Option<
    Result<(FormulaTokenView, int), FormulaErrorView>,
> {
    if 0 <= start && start + 2 <= s.len() && s[start] == '[' && s[start + 1] == 'p' {
        match spec_try_number(s, start + 2) {
            None => Some(
                Err(
                    FormulaErrorView {
                        position: start + 2,
                        kind: FormulaErrorKindView::ExpectedInteger,
                    },
                ),
            ),
            Some(Err(e)) => Some(Err(e)),
            Some(Ok((t, end))) => match t.kind {
                FormulaTokenKindView::Integer { value } => {
                    if end < s.len() && s[end] == ']' {
                        Some(
                            Ok(
                                (
                                    FormulaTokenView {
                                        kind: FormulaTokenKindView::Parameter {
                                            value: value as usize,
                                        },
                                        value: s.subrange(start, end + 1),
                                    },
                                    end + 1,
                                ),
                            ),
                        )
                    } else if end < s.len() {
                        Some(
                            Err(
                                FormulaErrorView {
                                    position: end,
                                    kind: FormulaErrorKindView::UnexpectedToken {
                                        found: s[end],
                                        expected: Some("]"@),
                                    },
                                },
                            ),
                        )
                    } else {
                        Some(
                            Err(
                                FormulaErrorView {
                                    position: end,
                                    kind: FormulaErrorKindView::UnexpectedEOF,
                                },
                            ),
                        )
                    }
                },
                _ => Some(
                    Err(
                        FormulaErrorView {
                            position: start + 2,
                            kind: FormulaErrorKindView::ExpectedInteger,
                        },
                    ),
                ),
            },
        }
    } else {
        None
    }
}

/// The items of a range-set literal from `pos` (just after the opening
/// bracket or a separator), with `acc` the items already read. Yields the
/// items and the position of the closing bracket. An integer followed by `..`
/// and an integer is one interval; an integer followed by a separator stands
/// for the one-value interval; an integer directly before the closing bracket
/// ends the list without adding an interval.
pub open spec fn spec_range_items(s: Seq<char>, pos: int, acc: Seq<RangeItem>) -> Option<
    Result<(Seq<RangeItem>, int), FormulaErrorView>,
>
    decreases s.len() - pos,
    when 0 <= pos
{
    if pos >= s.len() {
        Some(Err(FormulaErrorView { position: pos, kind: FormulaErrorKindView::UnexpectedEOF }))
    } else {
        match spec_try_number(s, pos) {
            None => None,
            Some(Err(e)) => Some(Err(e)),
            Some(Ok((t, end))) => match t.kind {
                FormulaTokenKindView::Integer { value: a } => {
                    if match_at(s, end, ".."@) && ".."@.len() == 2 {
                        let p2 = end + 2;
                        match spec_try_number(s, p2) {
                            None => Some(
                                Err(
                                    FormulaErrorView {
                                        position: p2,
                                        kind: FormulaErrorKindView::ExpectedInteger,
                                    },
                                ),
                            ),
                            Some(Err(e)) => Some(Err(e)),
                            Some(Ok((t2, end2))) => match t2.kind {
                                FormulaTokenKindView::Integer { value: b } => {
                                    let acc2 = acc.push(RangeItem { start: a, end: b });
                                    if end2 < s.len() && s[end2] == ']' {
                                        Some(Ok((acc2, end2)))
                                    } else if end2 < s.len() && s[end2] == ';' {
                                        spec_range_items(s, end2 + 1, acc2)
                                    } else if end2 < s.len() {
                                        Some(
                                            Err(
                                                FormulaErrorView {
                                                    position: end2,
                                                    kind: FormulaErrorKindView::UnexpectedToken {
                                                        found: s[end2],
                                                        expected: Some(";"@),
                                                    },
                                                },
                                            ),
                                        )
                                    } else {
                                        Some(
                                            Err(
                                                FormulaErrorView {
                                                    position: end2,
                                                    kind: FormulaErrorKindView::UnexpectedEOF,
                                                },
                                            ),
                                        )
                                    }
                                },
                                _ => Some(
                                    Err(
                                        FormulaErrorView {
                                            position: p2,
                                            kind: FormulaErrorKindView::ExpectedInteger,
                                        },
                                    ),
                                ),
                            },
                        }
                    } else if end < s.len() && s[end] == ';' {
                        spec_range_items(s, end + 1, acc.push(RangeItem { start: a, end: a }))
                    } else if end < s.len() && s[end] == ']' {
                        Some(Ok((acc, end)))
                    } else if end < s.len() {
                        Some(
                            Err(
                                FormulaErrorView {
                                    position: end,
                                    kind: FormulaErrorKindView::UnexpectedToken {
                                        found: s[end],
                                        expected: Some("; or ]"@),
                                    },
                                },
                            ),
                        )
                    } else {
                        Some(
                            Err(
                                FormulaErrorView {
                                    position: end,
                                    kind: FormulaErrorKindView::UnexpectedEOF,
                                },
                            ),
                        )
                    }
                },
                _ => Some(
                    Err(
                        FormulaErrorView {
                            position: pos,
                            kind: FormulaErrorKindView::ExpectedInteger,
                        },
                    ),
                ),
            },
        }
    }
}

/// What trying a bracketed range-set literal at `start` yields: the token
/// carrying the interval list and the consumed text through the closing
/// bracket. A bracket followed directly by the closing bracket wants an
/// integer.
pub open spec fn spec_try_range(s: Seq<char>, start: int) -> Option<
    Result<(FormulaTokenView, int), FormulaErrorView>,
> {
    if 0 <= start && start < s.len() && s[start] == '[' {
        if start + 1 < s.len() && s[start + 1] == ']' {
            Some(
                Err(
                    FormulaErrorView {
                        position: start + 1,
                        kind: FormulaErrorKindView::ExpectedInteger,
                    },
                ),
            )
        } else {
            match spec_range_items(s, start + 1, seq![]) {
                None => None,
                Some(Err(e)) => Some(Err(e)),
                Some(Ok((items, rpos))) => {
                    if start < rpos + 1 <= s.len() {
                        Some(
                            Ok(
                                (
                                    FormulaTokenView {
                                        kind: FormulaTokenKindView::Range { value: items },
                                        value: s.subrange(start, rpos + 1),
                                    },
                                    rpos + 1,
                                ),
                            ),
                        )
                    } else {
                        None
                    }
                },
            }
        }
    } else {
        None
    }
}

/// The first position at or after `pos` that is not a space, or the end.
pub open spec fn spec_skip_spaces(s: Seq<char>, pos: int) -> int
    decreases s.len() - pos,
{
    if 0 <= pos && pos < s.len() && s[pos] == ' ' {
        spec_skip_spaces(s, pos + 1)
    } else {
        pos
    }
}

/// One side of an open-range expression as the scanner reads it: a parameter
/// reference first, else a numeric literal.
pub enum OperandRes {
    /// Neither a parameter reference nor a numeric literal stands here.
    Missing,
    /// One of the two was begun but is malformed.
    Bad(FormulaErrorView),
    /// A usable side, and the position after it.
    Val(ToRangeValue, int),
    /// A numeric literal stands here, but not an integer one.
    Odd,
}

/// The open-range side read at `pos`.
pub open spec fn spec_operand(s: Seq<char>, pos: int) -> OperandRes {
    match spec_try_fparameter(s, pos) {
        Some(Err(e)) => OperandRes::Bad(e),
        Some(Ok((t, end))) => match t.kind {
            FormulaTokenKindView::Parameter { value } => OperandRes::Val(
                ToRangeValue::Parameter { index: value },
                end,
            ),
            _ => OperandRes::Odd,
        },
        None => match spec_try_number(s, pos) {
            Some(Err(e)) => OperandRes::Bad(e),
            Some(Ok((t, end))) => match t.kind {
                FormulaTokenKindView::Integer { value } => OperandRes::Val(
                    ToRangeValue::Integer { value },
                    end,
                ),
                _ => OperandRes::Odd,
            },
            None => OperandRes::Missing,
        },
    }
}

/// What trying an open-range expression `A to B` at `start` yields: each side
/// is a parameter reference or an integer, around the literal word `to` with
/// optional spaces. The consumed text runs through the second side, spaces
/// included.
pub open spec fn spec_try_to_range(s: Seq<char>, start: int) -> Option<
    Result<(FormulaTokenView, int), FormulaErrorView>,
> {
    match spec_operand(s, start) {
        OperandRes::Bad(e) => Some(Err(e)),
        OperandRes::Missing => {
            if 0 <= start && start < s.len() {
                Some(
                    Err(
                        FormulaErrorView {
                            position: start,
                            kind: FormulaErrorKindView::UnexpectedToken {
                                found: s[start],
                                expected: None,
                            },
                        },
                    ),
                )
            } else {
                Some(
                    Err(
                        FormulaErrorView {
                            position: start,
                            kind: FormulaErrorKindView::UnexpectedEOF,
                        },
                    ),
                )
            }
        },
        OperandRes::Odd => None,
        OperandRes::Val(a, end1) => {
            let p1 = spec_skip_spaces(s, end1);
            if p1 >= s.len() {
                None
            } else if match_at(s, p1, "to"@) && "to"@.len() == 2 {
                let p2 = spec_skip_spaces(s, p1 + 2);
                if p2 >= s.len() {
                    Some(
                        Err(
                            FormulaErrorView {
                                position: p2,
                                kind: FormulaErrorKindView::UnexpectedEOF,
                            },
                        ),
                    )
                } else {
                    match spec_operand(s, p2) {
                        OperandRes::Bad(e) => Some(Err(e)),
                        OperandRes::Missing => Some(
                            Err(
                                FormulaErrorView {
                                    position: p2,
                                    kind: FormulaErrorKindView::UnexpectedToken {
                                        found: s[p2],
                                        expected: None,
                                    },
                                },
                            ),
                        ),
                        OperandRes::Odd => Some(
                            Err(
                                FormulaErrorView {
                                    position: p2,
                                    kind: FormulaErrorKindView::UnexpectedToken {
                                        found: s[p2],
                                        expected: None,
                                    },
                                },
                            ),
                        ),
                        OperandRes::Val(b, end2) => {
                            if start < end2 <= s.len() {
                                Some(
                                    Ok(
                                        (
                                            FormulaTokenView {
                                                kind: FormulaTokenKindView::ToRange {
                                                    start: a,
                                                    end: b,
                                                },
                                                value: s.subrange(start, end2),
                                            },
                                            end2,
                                        ),
                                    ),
                                )
                            } else {
                                None
                            }
                        },
                    }
                }
            } else {
                None
            }
        },
    }
}

/// The token consuming `s[from..to]`.
pub open spec fn ftok(kind: FormulaTokenKindView, s: Seq<char>, from: int, to: int) -> FormulaTokenView {
    FormulaTokenView { kind, value: s.subrange(from, to) }
}

/// The whole scan from `pos`, with `acc` the tokens already emitted. One
/// token per construct; disambiguation is by first successful candidate in a
/// fixed priority order, and a leading letter must begin its keyword.
pub open spec fn spec_scan_formula_from(
    s: Seq<char>,
    pos: int,
    acc: Seq<FormulaTokenView>,
) -> Result<Seq<FormulaTokenView>, FormulaErrorView>
    decreases s.len() - pos,
    when 0 <= pos
{
    if pos >= s.len() {
        Ok(acc)
    } else {
        let c = s[pos];
        if c == '(' {
            spec_scan_formula_from(
                s,
                pos + 1,
                acc.push(ftok(FormulaTokenKindView::OpenParenthesis, s, pos, pos + 1)),
            )
        } else if c == ')' {
            spec_scan_formula_from(
                s,
                pos + 1,
                acc.push(ftok(FormulaTokenKindView::CloseParenthesis, s, pos, pos + 1)),
            )
        } else if c == '-' {
            match spec_try_number(s, pos) {
                Some(Err(e)) => Err(e),
                Some(Ok((t, end))) => spec_scan_formula_from(s, end, acc.push(t)),
                None => spec_scan_formula_from(
                    s,
                    pos + 1,
                    acc.push(ftok(FormulaTokenKindView::Substract, s, pos, pos + 1)),
                ),
            }
        } else if c == '+' {
            spec_scan_formula_from(
                s,
                pos + 1,
                acc.push(ftok(FormulaTokenKindView::Add, s, pos, pos + 1)),
            )
        } else if c == '*' {
            spec_scan_formula_from(
                s,
                pos + 1,
                acc.push(ftok(FormulaTokenKindView::Multiply, s, pos, pos + 1)),
            )
        } else if c == '/' {
            spec_scan_formula_from(
                s,
                pos + 1,
                acc.push(ftok(FormulaTokenKindView::Divide, s, pos, pos + 1)),
            )
        } else if c == 'd' {
            if match_at(s, pos, "div"@) && "div"@.len() == 3 {
                spec_scan_formula_from(
                    s,
                    pos + 3,
                    acc.push(ftok(FormulaTokenKindView::DivideWithRemain, s, pos, pos + 3)),
                )
            } else {
                Err(
                    FormulaErrorView {
                        position: pos,
                        kind: FormulaErrorKindView::UnexpectedToken {
                            found: 'd',
                            expected: Some("div"@),
                        },
                    },
                )
            }
        } else if c == 'm' {
            if match_at(s, pos, "mod"@) && "mod"@.len() == 3 {
                spec_scan_formula_from(
                    s,
                    pos + 3,
                    acc.push(ftok(FormulaTokenKindView::Modulo, s, pos, pos + 3)),
                )
            } else {
                Err(
                    FormulaErrorView {
                        position: pos,
                        kind: FormulaErrorKindView::UnexpectedToken {
                            found: 'm',
                            expected: Some("mod"@),
                        },
                    },
                )
            }
        } else if c == 'a' {
            if match_at(s, pos, "and"@) && "and"@.len() == 3 {
                spec_scan_formula_from(
                    s,
                    pos + 3,
                    acc.push(ftok(FormulaTokenKindView::And, s, pos, pos + 3)),
                )
            } else {
                Err(
                    FormulaErrorView {
                        position: pos,
                        kind: FormulaErrorKindView::UnexpectedToken {
                            found: 'a',
                            expected: Some("and"@),
                        },
                    },
                )
            }
        } else if c == 'o' {
            if match_at(s, pos, "or"@) && "or"@.len() == 2 {
                spec_scan_formula_from(
                    s,
                    pos + 2,
                    acc.push(ftok(FormulaTokenKindView::Or, s, pos, pos + 2)),
                )
            } else {
                Err(
                    FormulaErrorView {
                        position: pos,
                        kind: FormulaErrorKindView::UnexpectedToken {
                            found: 'o',
                            expected: Some("or"@),
                        },
                    },
                )
            }
        } else if c == 'i' {
            if match_at(s, pos, "in"@) && "in"@.len() == 2 {
                spec_scan_formula_from(
                    s,
                    pos + 2,
                    acc.push(ftok(FormulaTokenKindView::In, s, pos, pos + 2)),
                )
            } else {
                Err(
                    FormulaErrorView {
                        position: pos,
                        kind: FormulaErrorKindView::UnexpectedToken {
                            found: 'i',
                            expected: Some("in"@),
                        },
                    },
                )
            }
        } else if c == '>' {
            if match_at(s, pos, ">="@) && ">="@.len() == 2 {
                spec_scan_formula_from(
                    s,
                    pos + 2,
                    acc.push(ftok(FormulaTokenKindView::GreaterOrEqual, s, pos, pos + 2)),
                )
            } else {
                spec_scan_formula_from(
                    s,
                    pos + 1,
                    acc.push(ftok(FormulaTokenKindView::Greater, s, pos, pos + 1)),
                )
            }
        } else if c == '<' {
            if match_at(s, pos, "<="@) && "<="@.len() == 2 {
                spec_scan_formula_from(
                    s,
                    pos + 2,
                    acc.push(ftok(FormulaTokenKindView::LesserOrEqual, s, pos, pos + 2)),
                )
            } else if match_at(s, pos, "<>"@) && "<>"@.len() == 2 {
                spec_scan_formula_from(
                    s,
                    pos + 2,
                    acc.push(ftok(FormulaTokenKindView::NotEqual, s, pos, pos + 2)),
                )
            } else {
                spec_scan_formula_from(
                    s,
                    pos + 1,
                    acc.push(ftok(FormulaTokenKindView::Lesser, s, pos, pos + 1)),
                )
            }
        } else if c == '=' {
            if match_at(s, pos, "=="@) && "=="@.len() == 2 {
                spec_scan_formula_from(
                    s,
                    pos + 2,
                    acc.push(ftok(FormulaTokenKindView::Equal, s, pos, pos + 2)),
                )
            } else {
                spec_scan_formula_from(
                    s,
                    pos + 1,
                    acc.push(ftok(FormulaTokenKindView::Assignment, s, pos, pos + 1)),
                )
            }
        } else if is_digit(c) {
            match spec_try_to_range(s, pos) {
                Some(Err(e)) => Err(e),
                Some(Ok((t, end))) => spec_scan_formula_from(s, end, acc.push(t)),
                None => match spec_try_number(s, pos) {
                    Some(Err(e)) => Err(e),
                    Some(Ok((t, end))) => spec_scan_formula_from(s, end, acc.push(t)),
                    None => Err(
                        FormulaErrorView {
                            position: pos,
                            kind: FormulaErrorKindView::ExpectedInteger,
                        },
                    ),
                },
            }
        } else if c == '[' {
            match spec_try_range(s, pos) {
                Some(Err(e)) => Err(e),
                Some(Ok((t, end))) => spec_scan_formula_from(s, end, acc.push(t)),
                None => match spec_try_to_range(s, pos) {
                    Some(Err(e)) => Err(e),
                    Some(Ok((t, end))) => spec_scan_formula_from(s, end, acc.push(t)),
                    None => match spec_try_fparameter(s, pos) {
                        Some(Err(e)) => Err(e),
                        Some(Ok((t, end))) => spec_scan_formula_from(s, end, acc.push(t)),
                        None => Err(
                            FormulaErrorView {
                                position: pos,
                                kind: FormulaErrorKindView::UnexpectedToken {
                                    found: '[',
                                    expected: None,
                                },
                            },
                        ),
                    },
                },
            }
        } else if c == ' ' {
            spec_scan_formula_from(s, pos + 1, acc)
        } else {
            Err(
                FormulaErrorView {
                    position: pos,
                    kind: FormulaErrorKindView::UnexpectedToken { found: c, expected: None },
                },
            )
        }
    }
}

/// What scanning a whole formula yields.
#[verifier::opaque]
pub open spec fn spec_scan_formula(s: Seq<char>) -> Result<
    Seq<FormulaTokenView>,
    FormulaErrorView,
> {
    spec_scan_formula_from(s, 0, seq![])
}

/// Runs the numeric-literal scan: the end position and whether a decimal
/// point was seen, or the position of a second decimal point.
fn num_scan_exec(text: &str, start: usize) -> (r: Result<(usize, bool), usize>)
    requires
        start <= text@.len(),
    ensures
        match r {
            Ok((end, dotted)) => num_scan(text@, start as int, start as int, false)
                == (NumScan::End { end: end as int, dotted }) && start <= end <= text@.len(),
            Err(p) => num_scan(text@, start as int, start as int, false) == (NumScan::BadDot {
                at: p as int,
            }) && start <= p < text@.len(),
        },
{
    let n = text.unicode_len();
    let mut pos = start;
    let mut dotted = false;
    while pos < n
        invariant
            n == text@.len(),
            start <= pos <= n,
            num_scan(text@, start as int, start as int, false) == num_scan(
                text@,
                start as int,
                pos as int,
                dotted,
            ),
        decreases n - pos,
    {
        let c = text.get_char(pos);
        if 48 <= c as u32 && c as u32 <= 57 {
            pos += 1;
        } else if c == '.' {
            if pos + 1 < n && text.get_char(pos + 1) == '.' {
                return Ok((pos, dotted));
            }
            if dotted {
                return Err(pos);
            }
            dotted = true;
            pos += 1;
        } else if c == '-' {
            if pos != start {
                return Ok((pos, dotted));
            }
            pos += 1;
        } else {
            return Ok((pos, dotted));
        }
    }
    Ok((pos, dotted))
}

/// Does `text[start..end]` hold at least one digit?
fn has_digit_exec(text: &str, start: usize, end: usize) -> (b: bool)
    requires
        start <= end <= text@.len(),
    ensures
        b == seq_has_digit(text@.subrange(start as int, end as int)),
{
    let ghost ds = text@.subrange(start as int, end as int);
    let mut i = start;
    while i < end
        invariant
            start <= i <= end <= text@.len(),
            ds == text@.subrange(start as int, end as int),
            forall|j: int| start <= j < i ==> !(#[trigger] is_digit(text@[j])),
        decreases end - i,
    {
        let c = text.get_char(i);
        if 48 <= c as u32 && c as u32 <= 57 {
            proof {
                assert(ds[i - start as int] == text@[i as int]);
                assert(is_digit(ds[i - start as int]));
            }
            return true;
        }
        i += 1;
    }
    proof {
        assert forall|j: int| 0 <= j < ds.len() implies !is_digit(ds[j]) by {
            assert(ds[j] == text@[start + j]);
        }
    }
    false
}

/// Reads `text[start..end]` as an integer literal fitting the 32-bit signed
/// range, or nothing when it is not one.
fn parse_int_i32(text: &str, start: usize, end: usize) -> (r: Option<i32>)
    requires
        start <= end <= text@.len(),
    ensures
        ({
            let ds = text@.subrange(start as int, end as int);
            match r {
                Some(v) => is_int_literal(ds) && -0x8000_0000 <= int_lit_val(ds) <= 0x7FFF_FFFF
                    && v as int == int_lit_val(ds),
                None => !(is_int_literal(ds) && -0x8000_0000 <= int_lit_val(ds) <= 0x7FFF_FFFF),
            }
        }),
{
    let ghost ds = text@.subrange(start as int, end as int);
    if start == end {
        return None;
    }
    let neg = text.get_char(start) == '-';
    let dstart = if neg {
        start + 1
    } else {
        start
    };
    proof {
        assert(ds[0] == text@[start as int]);
        if neg {
            assert(ds.drop_first() =~= text@.subrange(dstart as int, end as int));
        } else {
            assert(ds =~= text@.subrange(dstart as int, end as int));
        }
    }
    if dstart == end {
        return None;
    }
    let ghost tail = text@.subrange(dstart as int, end as int);
    let mut v: u64 = 0;
    let mut i = dstart;
    while i < end
        invariant
            start <= dstart <= i <= end <= text@.len(),
            dstart < end,
            tail == text@.subrange(dstart as int, end as int),
            ds == text@.subrange(start as int, end as int),
            ds.len() > 0,
            neg ==> dstart == start + 1 && ds[0] == '-' && ds.drop_first() == tail,
            !neg ==> dstart == start && ds == tail && ds[0] != '-',
            v as int == digits_val(text@.subrange(dstart as int, i as int)),
            v <= 0x8000_0000,
            forall|j: int| dstart <= j < i ==> #[trigger] is_digit(text@[j]),
        decreases end - i,
    {
        let c = text.get_char(i);
        if !(48 <= c as u32 && c as u32 <= 57) {
            proof {
                assert(tail[i - dstart as int] == text@[i as int]);
                assert(!is_digit(tail[i - dstart as int]));
                assert(!is_digit_run(tail));
            }
            return None;
        }
        let d: u64 = (c as u32 - 48) as u64;
        proof {
            lemma_digits_val_step(text@, dstart as int, i as int);
        }
        let vnext: u64 = v * 10 + d;
        if vnext > 0x8000_0000 {
            proof {
                if is_int_literal(ds) {
                    assert(is_digit_run(tail));
                    assert forall|j: int| dstart <= j < end implies #[trigger] is_digit(
                        text@[j],
                    ) by {
                        assert(tail[j - dstart as int] == text@[j]);
                        assert(is_digit(tail[j - dstart as int]));
                    }
                    lemma_digits_val_grows(text@, dstart as int, i as int + 1, end as int);
                    assert(digits_val(tail) > 0x8000_0000);
                }
            }
            return None;
        }
        v = vnext;
        i += 1;
    }
    proof {
        assert(text@.subrange(dstart as int, end as int) == tail);
        assert forall|j: int| 0 <= j < tail.len() implies is_digit(tail[j]) by {
            assert(tail[j] == text@[dstart + j]);
        }
        assert(is_digit_run(tail));
        assert(v as int == digits_val(tail));
    }
    if neg {
        if v == 0x8000_0000 {
            Some(i32::MIN)
        } else {
            Some(0i32 - (v as i32))
        }
    } else {
        if v > 0x7FFF_FFFF {
            return None;
        }
        Some(v as i32)
    }
}

impl Formula {
    /// A numeric literal at `start`: an optional leading minus sign, digits,
    /// and at most one decimal point. A literal with a point becomes a
    /// `Double` token, one without an `Integer` token.
    pub fn try_parse_number(text: &str, start: usize) -> (r: Option<
        Result<FormulaToken, FormulaError>,
    >)
        ensures
            match r {
                None => spec_try_number(text@, start as int) is None,
                Some(Ok(tok)) => spec_try_number(text@, start as int) matches Some(Ok(p)) && p.0
                    == tok@ && p.1 == start + tok.value@.len(),
                Some(Err(e)) => spec_try_number(text@, start as int) matches Some(Err(ev)) && ev
                    == e@,
            },
    {
        let n = text.unicode_len();
        if start > n {
            return None;
        }
        match num_scan_exec(text, start) {
            Err(p) => Some(
                Err(
                    FormulaError {
                        position: p,
                        kind: FormulaErrorKind::UnexpectedToken { found: '.', expected: None },
                    },
                ),
            ),
            Ok((end, dotted)) => {
                if dotted {
                    if has_digit_exec(text, start, end) {
                        let value = String::from_str(text.substring_char(start, end));
                        Some(Ok(FormulaToken { kind: FormulaTokenKind::Double, value }))
                    } else {
                        None
                    }
                } else {
                    match parse_int_i32(text, start, end) {
                        Some(v) => {
                            let value = String::from_str(text.substring_char(start, end));
                            Some(
                                Ok(FormulaToken { kind: FormulaTokenKind::Integer { value: v }, value }),
                            )
                        },
                        None => None,
                    }
                }
            },
        }
    }

    /// Does the fixed word stand in the text at `start`?
    pub fn try_parse_word(word: &str, text: &str, start: usize) -> (b: bool)
        ensures
            b == match_at(text@, start as int, word@),
    {
        crate::markup::match_at_exec(text, start, word)
    }

    /// A parameter reference `[p<integer>]` at `start`.
    pub fn try_parse_parameter(text: &str, start: usize) -> (r: Option<
        Result<FormulaToken, FormulaError>,
    >)
        ensures
            match r {
                None => spec_try_fparameter(text@, start as int) is None,
                Some(Ok(tok)) => spec_try_fparameter(text@, start as int) matches Some(Ok(p))
                    && p.0 == tok@ && p.1 == start + tok.value@.len(),
                Some(Err(e)) => spec_try_fparameter(text@, start as int) matches Some(Err(ev))
                    && ev == e@,
            },
    {
        let n = text.unicode_len();
        if start >= n || n - start < 2 {
            return None;
        }
        if text.get_char(start) != '[' || text.get_char(start + 1) != 'p' {
            return None;
        }
        match Self::try_parse_number(text, start + 2) {
            None => Some(
                Err(FormulaError { position: start + 2, kind: FormulaErrorKind::ExpectedInteger }),
            ),
            Some(Err(e)) => Some(Err(e)),
            Some(Ok(tok)) => {
                let tlen = tok.value.as_str().unicode_len();
                let end = start + 2 + tlen;
                match tok.kind {
                    FormulaTokenKind::Integer { value } => {
                        if end < n {
                            let ch = text.get_char(end);
                            if ch == ']' {
                                let value_text = String::from_str(
                                    text.substring_char(start, end + 1),
                                );
                                Some(
                                    Ok(
                                        FormulaToken {
                                            kind: FormulaTokenKind::Parameter {
                                                value: value as usize,
                                            },
                                            value: value_text,
                                        },
                                    ),
                                )
                            } else {
                                Some(
                                    Err(
                                        FormulaError {
                                            position: end,
                                            kind: FormulaErrorKind::UnexpectedToken {
                                                found: ch,
                                                expected: Some(String::from_str("]")),
                                            },
                                        },
                                    ),
                                )
                            }
                        } else {
                            Some(
                                Err(
                                    FormulaError {
                                        position: end,
                                        kind: FormulaErrorKind::UnexpectedEOF,
                                    },
                                ),
                            )
                        }
                    },
                    _ => Some(
                        Err(
                            FormulaError {
                                position: start + 2,
                                kind: FormulaErrorKind::ExpectedInteger,
                            },
                        ),
                    ),
                }
            },
        }
    }
}

/// How an attempted open-range side came out.
enum OperandOutcome {
    Missing,
    Bad(FormulaError),
    Val(ToRangeValue, usize),
    Odd,
}

/// Reads one open-range side at `pos`: a parameter reference first, else a
/// numeric literal.
fn operand_exec(text: &str, pos: usize) -> (r: OperandOutcome)
    ensures
        match r {
            OperandOutcome::Missing => spec_operand(text@, pos as int) == OperandRes::Missing,
            OperandOutcome::Bad(e) => spec_operand(text@, pos as int) == OperandRes::Bad(e@),
            OperandOutcome::Val(v, end) => spec_operand(text@, pos as int) == OperandRes::Val(
                v,
                end as int,
            ) && pos < end <= text@.len(),
            OperandOutcome::Odd => spec_operand(text@, pos as int) == OperandRes::Odd,
        },
{
    let n = text.unicode_len();
    match Formula::try_parse_parameter(text, pos) {
        Some(Err(e)) => OperandOutcome::Bad(e),
        Some(Ok(tok)) => {
            let tlen = tok.value.as_str().unicode_len();
            proof {
                assert(pos + tok.value@.len() <= n);
            }
            match &tok.kind {
                FormulaTokenKind::Parameter { value } => OperandOutcome::Val(
                    ToRangeValue::Parameter { index: *value },
                    pos + tlen,
                ),
                _ => OperandOutcome::Odd,
            }
        },
        None => match Formula::try_parse_number(text, pos) {
            Some(Err(e)) => OperandOutcome::Bad(e),
            Some(Ok(tok)) => {
                let tlen = tok.value.as_str().unicode_len();
                proof {
                    assert(pos + tok.value@.len() <= n);
                }
                match &tok.kind {
                    FormulaTokenKind::Integer { value } => OperandOutcome::Val(
                        ToRangeValue::Integer { value: *value },
                        pos + tlen,
                    ),
                    _ => OperandOutcome::Odd,
                }
            },
            None => OperandOutcome::Missing,
        },
    }
}

/// The first position at or after `from` that is not a space, or the end.
fn skip_spaces_exec(text: &str, from: usize) -> (p: usize)
    ensures
        p as int == spec_skip_spaces(text@, from as int),
        from <= p,
        p <= text@.len() || p == from,
{
    let n = text.unicode_len();
    let mut p = from;
    if p > n {
        return p;
    }
    while p < n
        invariant
            n == text@.len(),
            from <= p <= n,
            spec_skip_spaces(text@, from as int) == spec_skip_spaces(text@, p as int),
        decreases n - p,
    {
        if text.get_char(p) != ' ' {
            return p;
        }
        p += 1;
    }
    p
}

/// Pushes the token consuming `text[from..to]`.
fn push_tok(tokens: &mut Vec<FormulaToken>, text: &str, from: usize, to: usize, kind: FormulaTokenKind)
    requires
        from <= to <= text@.len(),
    ensures
        toks_view(final(tokens)@) == toks_view(old(tokens)@).push(
            ftok(kind@, text@, from as int, to as int),
        ),
{
    let ghost k = kind@;
    let value = String::from_str(text.substring_char(from, to));
    let ghost before = toks_view(tokens@);
    tokens.push(FormulaToken { kind, value });
    proof {
        assert(toks_view(tokens@) =~= before.push(ftok(k, text@, from as int, to as int)));
    }
}

impl Formula {
    /// A bracketed range-set literal at `start`: semicolon-separated items,
    /// each a single integer or an integer pair joined by `..`.
    pub fn try_parse_range(text: &str, start: usize) -> (r: Option<
        Result<FormulaToken, FormulaError>,
    >)
        ensures
            match r {
                None => spec_try_range(text@, start as int) is None,
                Some(Ok(tok)) => spec_try_range(text@, start as int) matches Some(Ok(p)) && p.0
                    == tok@ && p.1 == start + tok.value@.len(),
                Some(Err(e)) => spec_try_range(text@, start as int) matches Some(Err(ev)) && ev
                    == e@,
            },
    {
        let n = text.unicode_len();
        if start >= n {
            return None;
        }
        if text.get_char(start) != '[' {
            return None;
        }
        if start + 1 < n && text.get_char(start + 1) == ']' {
            return Some(
                Err(FormulaError { position: start + 1, kind: FormulaErrorKind::ExpectedInteger }),
            );
        }
        let mut pos = start + 1;
        let mut items: Vec<RangeItem> = Vec::new();
        proof {
            assert(items@ =~= Seq::<RangeItem>::empty());
        }
        loop
            invariant
                n == text@.len(),
                start + 1 <= pos <= n,
                start < n,
                text@[start as int] == '[',
                !(start + 1 < n && text@[start as int + 1] == ']'),
                spec_range_items(text@, start as int + 1, Seq::empty()) == spec_range_items(
                    text@,
                    pos as int,
                    items@,
                ),
            decreases n - pos,
        {
            proof {
                reveal_strlit("..");
            }
            if pos >= n {
                return Some(
                    Err(FormulaError { position: pos, kind: FormulaErrorKind::UnexpectedEOF }),
                );
            }
            match Formula::try_parse_number(text, pos) {
                None => {
                    return None;
                },
                Some(Err(e)) => {
                    return Some(Err(e));
                },
                Some(Ok(tok)) => {
                    let tlen = tok.value.as_str().unicode_len();
                    let end = pos + tlen;
                    let a = match &tok.kind {
                        FormulaTokenKind::Integer { value } => *value,
                        _ => {
                            return Some(
                                Err(
                                    FormulaError {
                                        position: pos,
                                        kind: FormulaErrorKind::ExpectedInteger,
                                    },
                                ),
                            );
                        },
                    };
                    if crate::markup::match_at_exec(text, end, "..") {
                        let p2 = end + 2;
                        match Formula::try_parse_number(text, p2) {
                            None => {
                                return Some(
                                    Err(
                                        FormulaError {
                                            position: p2,
                                            kind: FormulaErrorKind::ExpectedInteger,
                                        },
                                    ),
                                );
                            },
                            Some(Err(e)) => {
                                return Some(Err(e));
                            },
                            Some(Ok(tok2)) => {
                                let tlen2 = tok2.value.as_str().unicode_len();
                                let end2 = p2 + tlen2;
                                let b = match &tok2.kind {
                                    FormulaTokenKind::Integer { value } => *value,
                                    _ => {
                                        return Some(
                                            Err(
                                                FormulaError {
                                                    position: p2,
                                                    kind: FormulaErrorKind::ExpectedInteger,
                                                },
                                            ),
                                        );
                                    },
                                };
                                items.push(RangeItem { start: a, end: b });
                                if end2 < n {
                                    let ch = text.get_char(end2);
                                    if ch == ']' {
                                        let value = String::from_str(
                                            text.substring_char(start, end2 + 1),
                                        );
                                        return Some(
                                            Ok(
                                                FormulaToken {
                                                    kind: FormulaTokenKind::Range { value: items },
                                                    value,
                                                },
                                            ),
                                        );
                                    } else if ch == ';' {
                                        pos = end2 + 1;
                                    } else {
                                        return Some(
                                            Err(
                                                FormulaError {
                                                    position: end2,
                                                    kind: FormulaErrorKind::UnexpectedToken {
                                                        found: ch,
                                                        expected: Some(String::from_str(";")),
                                                    },
                                                },
                                            ),
                                        );
                                    }
                                } else {
                                    return Some(
                                        Err(
                                            FormulaError {
                                                position: end2,
                                                kind: FormulaErrorKind::UnexpectedEOF,
                                            },
                                        ),
                                    );
                                }
                            },
                        }
                    } else {
                        if end < n {
                            let ch = text.get_char(end);
                            if ch == ';' {
                                items.push(RangeItem { start: a, end: a });
                                pos = end + 1;
                            } else if ch == ']' {
                                let value = String::from_str(text.substring_char(start, end + 1));
                                return Some(
                                    Ok(
                                        FormulaToken {
                                            kind: FormulaTokenKind::Range { value: items },
                                            value,
                                        },
                                    ),
                                );
                            } else {
                                return Some(
                                    Err(
                                        FormulaError {
                                            position: end,
                                            kind: FormulaErrorKind::UnexpectedToken {
                                                found: ch,
                                                expected: Some(String::from_str("; or ]")),
                                            },
                                        },
                                    ),
                                );
                            }
                        } else {
                            return Some(
                                Err(
                                    FormulaError {
                                        position: end,
                                        kind: FormulaErrorKind::UnexpectedEOF,
                                    },
                                ),
                            );
                        }
                    }
                },
            }
        }
    }

    /// An open-range expression `A to B` at `start`: each side a parameter
    /// reference or an integer, around the literal word `to` with optional
    /// spaces.
    pub fn try_parse_to_range(text: &str, start: usize) -> (r: Option<
        Result<FormulaToken, FormulaError>,
    >)
        ensures
            match r {
                None => spec_try_to_range(text@, start as int) is None,
                Some(Ok(tok)) => spec_try_to_range(text@, start as int) matches Some(Ok(p)) && p.0
                    == tok@ && p.1 == start + tok.value@.len(),
                Some(Err(e)) => spec_try_to_range(text@, start as int) matches Some(Err(ev)) && ev
                    == e@,
            },
    {
        proof {
            reveal_strlit("to");
        }
        let n = text.unicode_len();
        match operand_exec(text, start) {
            OperandOutcome::Bad(e) => Some(Err(e)),
            OperandOutcome::Missing => {
                if start < n {
                    Some(
                        Err(
                            FormulaError {
                                position: start,
                                kind: FormulaErrorKind::UnexpectedToken {
                                    found: text.get_char(start),
                                    expected: None,
                                },
                            },
                        ),
                    )
                } else {
                    Some(
                        Err(FormulaError { position: start, kind: FormulaErrorKind::UnexpectedEOF }),
                    )
                }
            },
            OperandOutcome::Odd => None,
            OperandOutcome::Val(a, end1) => {
                let p1 = skip_spaces_exec(text, end1);
                if p1 >= n {
                    return None;
                }
                if crate::markup::match_at_exec(text, p1, "to") {
                    let p2 = skip_spaces_exec(text, p1 + 2);
                    if p2 >= n {
                        Some(
                            Err(
                                FormulaError {
                                    position: p2,
                                    kind: FormulaErrorKind::UnexpectedEOF,
                                },
                            ),
                        )
                    } else {
                        match operand_exec(text, p2) {
                            OperandOutcome::Bad(e) => Some(Err(e)),
                            OperandOutcome::Missing => Some(
                                Err(
                                    FormulaError {
                                        position: p2,
                                        kind: FormulaErrorKind::UnexpectedToken {
                                            found: text.get_char(p2),
                                            expected: None,
                                        },
                                    },
                                ),
                            ),
                            OperandOutcome::Odd => Some(
                                Err(
                                    FormulaError {
                                        position: p2,
                                        kind: FormulaErrorKind::UnexpectedToken {
                                            found: text.get_char(p2),
                                            expected: None,
                                        },
                                    },
                                ),
                            ),
                            OperandOutcome::Val(b, end2) => {
                                let value = String::from_str(text.substring_char(start, end2));
                                Some(
                                    Ok(
                                        FormulaToken {
                                            kind: FormulaTokenKind::ToRange { start: a, end: b },
                                            value,
                                        },
                                    ),
                                )
                            },
                        }
                    }
                } else {
                    None
                }
            },
        }
    }

    /// Scans one formula left to right, one token per construct. Malformed
    /// formula text is an error carrying the failure's character position.
    pub fn parse(text: &str) -> (r: Result<Formula, FormulaError>)
        ensures
            match r {
                Ok(f) => spec_scan_formula(text@) matches Ok(ts) && ts == f@,
                Err(e) => spec_scan_formula(text@) matches Err(ev) && ev == e@,
            },
    {
        let n = text.unicode_len();
        let mut tokens: Vec<FormulaToken> = Vec::new();
        let mut pos: usize = 0;
        proof {
            reveal(spec_scan_formula);
            assert(toks_view(tokens@) =~= Seq::<FormulaTokenView>::empty());
        }
        while pos < n
            invariant
                n == text@.len(),
                0 <= pos <= n,
                spec_scan_formula(text@) == spec_scan_formula_from(
                    text@,
                    pos as int,
                    toks_view(tokens@),
                ),
            decreases n - pos,
        {
            proof {
                reveal_strlit("div");
                reveal_strlit("mod");
                reveal_strlit("and");
                reveal_strlit("or");
                reveal_strlit("in");
                reveal_strlit(">=");
                reveal_strlit("<=");
                reveal_strlit("<>");
                reveal_strlit("==");
            }
            let c = text.get_char(pos);
            if c == '(' {
                push_tok(&mut tokens, text, pos, pos + 1, FormulaTokenKind::OpenParenthesis);
                pos += 1;
            } else if c == ')' {
                push_tok(&mut tokens, text, pos, pos + 1, FormulaTokenKind::CloseParenthesis);
                pos += 1;
            } else if c == '-' {
                match Self::try_parse_number(text, pos) {
                    Some(Err(e)) => {
                        return Err(e);
                    },
                    Some(Ok(tok)) => {
                        let tlen = tok.value.as_str().unicode_len();
                        let ghost before = toks_view(tokens@);
                        tokens.push(tok);
                        proof {
                            assert(toks_view(tokens@) =~= before.push(
                                spec_try_number(text@, pos as int)->Some_0->Ok_0.0,
                            ));
                        }
                        pos = pos + tlen;
                    },
                    None => {
                        push_tok(&mut tokens, text, pos, pos + 1, FormulaTokenKind::Substract);
                        pos += 1;
                    },
                }
            } else if c == '+' {
                push_tok(&mut tokens, text, pos, pos + 1, FormulaTokenKind::Add);
                pos += 1;
            } else if c == '*' {
                push_tok(&mut tokens, text, pos, pos + 1, FormulaTokenKind::Multiply);
                pos += 1;
            } else if c == '/' {
                push_tok(&mut tokens, text, pos, pos + 1, FormulaTokenKind::Divide);
                pos += 1;
            } else if c == 'd' {
                if Self::try_parse_word("div", text, pos) {
                    push_tok(&mut tokens, text, pos, pos + 3, FormulaTokenKind::DivideWithRemain);
                    pos += 3;
                } else {
                    return Err(
                        FormulaError {
                            position: pos,
                            kind: FormulaErrorKind::UnexpectedToken {
                                found: 'd',
                                expected: Some(String::from_str("div")),
                            },
                        },
                    );
                }
            } else if c == 'm' {
                if Self::try_parse_word("mod", text, pos) {
                    push_tok(&mut tokens, text, pos, pos + 3, FormulaTokenKind::Modulo);
                    pos += 3;
                } else {
                    return Err(
                        FormulaError {
                            position: pos,
                            kind: FormulaErrorKind::UnexpectedToken {
                                found: 'm',
                                expected: Some(String::from_str("mod")),
                            },
                        },
                    );
                }
            } else if c == 'a' {
                if Self::try_parse_word("and", text, pos) {
                    push_tok(&mut tokens, text, pos, pos + 3, FormulaTokenKind::And);
                    pos += 3;
                } else {
                    return Err(
                        FormulaError {
                            position: pos,
                            kind: FormulaErrorKind::UnexpectedToken {
                                found: 'a',
                                expected: Some(String::from_str("and")),
                            },
                        },
                    );
                }
            } else if c == 'o' {
                if Self::try_parse_word("or", text, pos) {
                    push_tok(&mut tokens, text, pos, pos + 2, FormulaTokenKind::Or);
                    pos += 2;
                } else {
                    return Err(
                        FormulaError {
                            position: pos,
                            kind: FormulaErrorKind::UnexpectedToken {
                                found: 'o',
                                expected: Some(String::from_str("or")),
                            },
                        },
                    );
                }
            } else if c == 'i' {
                if Self::try_parse_word("in", text, pos) {
                    push_tok(&mut tokens, text, pos, pos + 2, FormulaTokenKind::In);
                    pos += 2;
                } else {
                    return Err(
                        FormulaError {
                            position: pos,
                            kind: FormulaErrorKind::UnexpectedToken {
                                found: 'i',
                                expected: Some(String::from_str("in")),
                            },
                        },
                    );
                }
            } else if c == '>' {
                if Self::try_parse_word(">=", text, pos) {
                    push_tok(&mut tokens, text, pos, pos + 2, FormulaTokenKind::GreaterOrEqual);
                    pos += 2;
                } else {
                    push_tok(&mut tokens, text, pos, pos + 1, FormulaTokenKind::Greater);
                    pos += 1;
                }
            } else if c == '<' {
                if Self::try_parse_word("<=", text, pos) {
                    push_tok(&mut tokens, text, pos, pos + 2, FormulaTokenKind::LesserOrEqual);
                    pos += 2;
                } else if Self::try_parse_word("<>", text, pos) {
                    push_tok(&mut tokens, text, pos, pos + 2, FormulaTokenKind::NotEqual);
                    pos += 2;
                } else {
                    push_tok(&mut tokens, text, pos, pos + 1, FormulaTokenKind::Lesser);
                    pos += 1;
                }
            } else if c == '=' {
                if Self::try_parse_word("==", text, pos) {
                    push_tok(&mut tokens, text, pos, pos + 2, FormulaTokenKind::Equal);
                    pos += 2;
                } else {
                    push_tok(&mut tokens, text, pos, pos + 1, FormulaTokenKind::Assignment);
                    pos += 1;
                }
            } else if 48 <= c as u32 && c as u32 <= 57 {
                match Self::try_parse_to_range(text, pos) {
                    Some(Err(e)) => {
                        return Err(e);
                    },
                    Some(Ok(tok)) => {
                        let tlen = tok.value.as_str().unicode_len();
                        let ghost before = toks_view(tokens@);
                        tokens.push(tok);
                        proof {
                            assert(toks_view(tokens@) =~= before.push(
                                spec_try_to_range(text@, pos as int)->Some_0->Ok_0.0,
                            ));
                        }
                        pos = pos + tlen;
                    },
                    None => {
                        match Self::try_parse_number(text, pos) {
                            Some(Err(e)) => {
                                return Err(e);
                            },
                            Some(Ok(tok)) => {
                                let tlen = tok.value.as_str().unicode_len();
                                let ghost before = toks_view(tokens@);
                                tokens.push(tok);
                                proof {
                                    assert(toks_view(tokens@) =~= before.push(
                                        spec_try_number(text@, pos as int)->Some_0->Ok_0.0,
                                    ));
                                }
                                pos = pos + tlen;
                            },
                            None => {
                                return Err(
                                    FormulaError {
                                        position: pos,
                                        kind: FormulaErrorKind::ExpectedInteger,
                                    },
                                );
                            },
                        }
                    },
                }
            } else if c == '[' {
                match Self::try_parse_range(text, pos) {
                    Some(Err(e)) => {
                        return Err(e);
                    },
                    Some(Ok(tok)) => {
                        let tlen = tok.value.as_str().unicode_len();
                        let ghost before = toks_view(tokens@);
                        tokens.push(tok);
                        proof {
                            assert(toks_view(tokens@) =~= before.push(
                                spec_try_range(text@, pos as int)->Some_0->Ok_0.0,
                            ));
                        }
                        pos = pos + tlen;
                    },
                    None => {
                        match Self::try_parse_to_range(text, pos) {
                            Some(Err(e)) => {
                                return Err(e);
                            },
                            Some(Ok(tok)) => {
                                let tlen = tok.value.as_str().unicode_len();
                                let ghost before = toks_view(tokens@);
                                tokens.push(tok);
                                proof {
                                    assert(toks_view(tokens@) =~= before.push(
                                        spec_try_to_range(text@, pos as int)->Some_0->Ok_0.0,
                                    ));
                                }
                                pos = pos + tlen;
                            },
                            None => {
                                match Self::try_parse_parameter(text, pos) {
                                    Some(Err(e)) => {
                                        return Err(e);
                                    },
                                    Some(Ok(tok)) => {
                                        let tlen = tok.value.as_str().unicode_len();
                                        let ghost before = toks_view(tokens@);
                                        tokens.push(tok);
                                        proof {
                                            assert(toks_view(tokens@) =~= before.push(
                                                spec_try_fparameter(
                                                    text@,
                                                    pos as int,
                                                )->Some_0->Ok_0.0,
                                            ));
                                        }
                                        pos = pos + tlen;
                                    },
                                    None => {
                                        return Err(
                                            FormulaError {
                                                position: pos,
                                                kind: FormulaErrorKind::UnexpectedToken {
                                                    found: '[',
                                                    expected: None,
                                                },
                                            },
                                        );
                                    },
                                }
                            },
                        }
                    },
                }
            } else if c == ' ' {
                pos += 1;
            } else {
                return Err(
                    FormulaError {
                        position: pos,
                        kind: FormulaErrorKind::UnexpectedToken { found: c, expected: None },
                    },
                );
            }
        }
        Ok(Formula { tokens })
    }
}

} // verus!

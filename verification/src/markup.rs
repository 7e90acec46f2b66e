//! The markup scanner: one left-to-right pass over a decoded string that
//! produces a sequence of typed text elements. Scanning is total and never
//! fails: any construct that cannot be recognized degrades to literal text.
//!
//! Every element records the exact source text it consumed in `value`, so the
//! concatenation of all values reproduces the input (see
//! [`lemma_markup_total_coverage`]).

use vstd::prelude::*;
use vstd::string::StrSliceExecFns;
use vstd::string::StringExecFns;

verus! {

/// The kind of one scanned element.
#[derive(Debug, Clone, PartialEq, Eq)]
pub enum TextElementKind {
    /// A run of literal characters.
    Text,
    /// A known variable reference such as `<ToStar>`; `name` is the part
    /// between the angle brackets.
    Variable { name: String },
    /// An inline formula span `{...}`; `text` is the part between the braces.
    Formula { text: String },
    /// The two-character current-parameter placeholder `<>`.
    CurrentParameter,
    /// `\n`, or the two-character `\r\n`.
    NewLine,
    /// A highlighted-selection span `<clr>...<clrEnd>`; `text` is the part
    /// between the tags.
    Selection { text: String },
    /// A numbered parameter reference `[p<digits>]`.
    Parameter { index: usize },
}

/// Mathematical model of an element kind.
pub enum TextElementKindView {
    Text,
    Variable { name: Seq<char> },
    Formula { text: Seq<char> },
    CurrentParameter,
    NewLine,
    Selection { text: Seq<char> },
    Parameter { index: usize },
}

impl View for TextElementKind {
    type V = TextElementKindView;

    open spec fn view(&self) -> TextElementKindView {
        match self {
            TextElementKind::Text => TextElementKindView::Text,
            TextElementKind::Variable { name } => TextElementKindView::Variable { name: name@ },
            TextElementKind::Formula { text } => TextElementKindView::Formula { text: text@ },
            TextElementKind::CurrentParameter => TextElementKindView::CurrentParameter,
            TextElementKind::NewLine => TextElementKindView::NewLine,
            TextElementKind::Selection { text } => TextElementKindView::Selection { text: text@ },
            TextElementKind::Parameter { index } => TextElementKindView::Parameter {
                index: *index,
            },
        }
    }
}

/// One element together with the exact source text it consumed.
#[derive(Debug, Clone, PartialEq, Eq)]
pub struct TextElement {
    pub kind: TextElementKind,
    pub value: String,
}

pub struct TextElementView {
    pub kind: TextElementKindView,
    pub value: Seq<char>,
}

impl View for TextElement {
    type V = TextElementView;

    open spec fn view(&self) -> TextElementView {
        TextElementView { kind: self.kind@, value: self.value@ }
    }
}

/// The models of a sequence of elements.
pub open spec fn elems_view(v: Seq<TextElement>) -> Seq<TextElementView> {
    v.map_values(|e: TextElement| e@)
}

/// A scanned string: the ordered element sequence.
#[derive(Debug, Clone, PartialEq, Eq)]
pub struct FormattedText {
    pub elements: Vec<TextElement>,
}

impl View for FormattedText {
    type V = Seq<TextElementView>;

    open spec fn view(&self) -> Seq<TextElementView> {
        elems_view(self.elements@)
    }
}

impl Default for FormattedText {
    /// The empty element sequence, the value scanned from empty text.
    fn default() -> (r: FormattedText)
        ensures
            r@ == Seq::<TextElementView>::empty(),
    {
        FormattedText { elements: Vec::new() }
    }
}

/// Does `pat` occur in `s` at position `pos`?
pub open spec fn match_at(s: Seq<char>, pos: int, pat: Seq<char>) -> bool {
    &&& 0 <= pos
    &&& pos + pat.len() <= s.len()
    &&& s.subrange(pos, pos + pat.len()) == pat
}

/// The first position at or after `from` holding `c`, if any.
pub open spec fn find_from(s: Seq<char>, from: int, c: char) -> Option<int>
    decreases s.len() - from,
{
    if from < 0 || from >= s.len() {
        None
    } else if s[from] == c {
        Some(from)
    } else {
        find_from(s, from + 1, c)
    }
}

/// Is `c` a decimal digit?
pub open spec fn is_digit(c: char) -> bool {
    ('0' as u32) <= (c as u32) && (c as u32) <= ('9' as u32)
}

/// The first position at or after `from` holding a non-digit, or the end.
pub open spec fn digits_end(s: Seq<char>, from: int) -> int
    decreases s.len() - from,
{
    if from < 0 || from >= s.len() {
        from
    } else if !is_digit(s[from]) {
        from
    } else {
        digits_end(s, from + 1)
    }
}

/// The number a run of decimal digits denotes.
pub open spec fn digits_val(ds: Seq<char>) -> int
    recommends
        forall|j: int| 0 <= j < ds.len() ==> is_digit(ds[j]),
    decreases ds.len(),
{
    if ds.len() == 0 {
        0
    } else {
        digits_val(ds.drop_last()) * 10 + (ds.last() as u32 - ('0' as u32))
    }
}

/// One attempted variable-catalogue entry: the element and its end position
/// when the full name `pat` stands at `start`.
pub open spec fn spec_var_try(s: Seq<char>, start: int, pat: Seq<char>) -> Option<
    (TextElementView, int),
> {
    if 2 <= pat.len() && match_at(s, start, pat) {
        Some(
            (
                TextElementView {
                    kind: TextElementKindView::Variable {
                        name: s.subrange(start + 1, start + pat.len() - 1),
                    },
                    value: s.subrange(start, start + pat.len()),
                },
                start + pat.len(),
            ),
        )
    } else {
        None
    }
}

/// The catalogue of recognized variable names, tried in this fixed order;
/// the first entry whose closing `>` is reached wins.
pub open spec fn spec_try_variable(s: Seq<char>, start: int) -> Option<(TextElementView, int)> {
    if spec_var_try(s, start, "<ToStar>"@) is Some {
        spec_var_try(s, start, "<ToStar>"@)
    } else if spec_var_try(s, start, "<ToPlanet>"@) is Some {
        spec_var_try(s, start, "<ToPlanet>"@)
    } else if spec_var_try(s, start, "<FromStar>"@) is Some {
        spec_var_try(s, start, "<FromStar>"@)
    } else if spec_var_try(s, start, "<FromPlanet>"@) is Some {
        spec_var_try(s, start, "<FromPlanet>"@)
    } else if spec_var_try(s, start, "<Ranger>"@) is Some {
        spec_var_try(s, start, "<Ranger>"@)
    } else if spec_var_try(s, start, "<Date>"@) is Some {
        spec_var_try(s, start, "<Date>"@)
    } else if spec_var_try(s, start, "<Day>"@) is Some {
        spec_var_try(s, start, "<Day>"@)
    } else if spec_var_try(s, start, "<Money>"@) is Some {
        spec_var_try(s, start, "<Money>"@)
    } else {
        None
    }
}

/// The current-parameter placeholder `<>` at `start`.
pub open spec fn spec_try_current_parameter(s: Seq<char>, start: int) -> Option<
    (TextElementView, int),
> {
    if 0 <= start && start + 2 <= s.len() && s[start] == '<' && s[start + 1] == '>' {
        Some(
            (
                TextElementView {
                    kind: TextElementKindView::CurrentParameter,
                    value: s.subrange(start, start + 2),
                },
                start + 2,
            ),
        )
    } else {
        None
    }
}

/// A highlighted-selection span at `start`: the literal open tag, then the
/// first `<` after it, which must begin the literal close tag.
pub open spec fn spec_try_selection(s: Seq<char>, start: int) -> Option<(TextElementView, int)> {
    if match_at(s, start, "<clr>"@) && "<clr>"@.len() == 5 && "<clrEnd>"@.len() == 8 {
        match find_from(s, start + 5, '<') {
            Some(t) => if start + 5 <= t && t + 8 <= s.len() && match_at(s, t, "<clrEnd>"@) {
                Some(
                    (
                        TextElementView {
                            kind: TextElementKindView::Selection {
                                text: s.subrange(start + 5, t),
                            },
                            value: s.subrange(start, t + 8),
                        },
                        t + 8,
                    ),
                )
            } else {
                None
            },
            None => None,
        }
    } else {
        None
    }
}

/// A brace-delimited formula span at `start`: everything up to the next `}`.
/// An unmatched brace yields no element.
pub open spec fn spec_try_formula(s: Seq<char>, start: int) -> Option<(TextElementView, int)> {
    match find_from(s, start + 1, '}') {
        Some(t) => if 0 <= start && start + 1 <= t && t < s.len() {
            Some(
                (
                    TextElementView {
                        kind: TextElementKindView::Formula { text: s.subrange(start + 1, t) },
                        value: s.subrange(start, t + 1),
                    },
                    t + 1,
                ),
            )
        } else {
            None
        },
        None => None,
    }
}

/// A parameter reference at `start`: `p` at the next position, then at least
/// one digit, then `]`, with the digits' value fitting the index type.
pub open spec fn spec_markup_parameter(s: Seq<char>, start: int) -> Option<
    (TextElementView, int),
> {
    if 0 <= start && start + 1 < s.len() && s[start + 1] == 'p' {
        let d0 = start + 2;
        let e = digits_end(s, d0);
        if d0 < e && e < s.len() && s[e] == ']' && digits_val(s.subrange(d0, e)) <= usize::MAX
            as int {
            Some(
                (
                    TextElementView {
                        kind: TextElementKindView::Parameter {
                            index: digits_val(s.subrange(d0, e)) as usize,
                        },
                        value: s.subrange(start, e + 1),
                    },
                    e + 1,
                ),
            )
        } else {
            None
        }
    } else {
        None
    }
}

/// What the scanner recognizes at `pos`, dispatched on the character there:
/// `<` tries a variable, then the placeholder, then a selection; `{` tries a
/// formula; a newline is `\r\n` or a bare `\n` (a lone `\r` is ordinary
/// text); `[` tries a parameter reference. `None` leaves the character to the
/// running literal text.
pub open spec fn markup_element_at(s: Seq<char>, pos: int) -> Option<(TextElementView, int)>
    recommends
        0 <= pos < s.len(),
{
    let c = s[pos];
    if c == '<' {
        match spec_try_variable(s, pos) {
            Some(r) => Some(r),
            None => match spec_try_current_parameter(s, pos) {
                Some(r) => Some(r),
                None => spec_try_selection(s, pos),
            },
        }
    } else if c == '{' {
        spec_try_formula(s, pos)
    } else if c == '\n' {
        if 0 <= pos && pos + 1 <= s.len() {
            Some(
                (
                    TextElementView {
                        kind: TextElementKindView::NewLine,
                        value: s.subrange(pos, pos + 1),
                    },
                    pos + 1,
                ),
            )
        } else {
            None
        }
    } else if c == '\r' {
        if 0 <= pos && pos + 2 <= s.len() && s[pos + 1] == '\n' {
            Some(
                (
                    TextElementView {
                        kind: TextElementKindView::NewLine,
                        value: s.subrange(pos, pos + 2),
                    },
                    pos + 2,
                ),
            )
        } else {
            None
        }
    } else if c == '[' {
        spec_markup_parameter(s, pos)
    } else {
        None
    }
}

/// Flushes the buffered literal text `s[last..pos]`, if any, as one `Text`
/// element.
pub open spec fn flush_text(
    s: Seq<char>,
    acc: Seq<TextElementView>,
    last: int,
    pos: int,
) -> Seq<TextElementView> {
    if last != s.len() && last != pos {
        acc.push(TextElementView { kind: TextElementKindView::Text, value: s.subrange(last, pos) })
    } else {
        acc
    }
}

/// The whole scan from `pos` with `last` marking the start of the buffered
/// literal run and `acc` the elements already emitted.
pub open spec fn spec_scan_markup_from(
    s: Seq<char>,
    pos: int,
    last: int,
    acc: Seq<TextElementView>,
) -> Seq<TextElementView>
    recommends
        0 <= last <= pos <= s.len(),
    decreases s.len() - pos,
    when 0 <= pos
{
    if pos >= s.len() {
        flush_text(s, acc, last, pos)
    } else {
        match markup_element_at(s, pos) {
            Some((el, end)) => spec_scan_markup_from(
                s,
                end,
                end,
                flush_text(s, acc, last, pos).push(el),
            ),
            None => spec_scan_markup_from(s, pos + 1, last, acc),
        }
    }
}

/// What scanning a whole string yields.
#[verifier::opaque]
pub open spec fn spec_scan_markup(s: Seq<char>) -> Seq<TextElementView> {
    spec_scan_markup_from(s, 0, 0, seq![])
}

/// Does `pat` occur in `text` at character position `start`?
pub(crate) fn match_at_exec(text: &str, start: usize, pat: &str) -> (b: bool)
    ensures
        b == match_at(text@, start as int, pat@),
{
    let n = text.unicode_len();
    let plen = pat.unicode_len();
    if start > n || n - start < plen {
        return false;
    }
    let mut j: usize = 0;
    while j < plen
        invariant
            n == text@.len(),
            plen == pat@.len(),
            start + plen <= n,
            0 <= j <= plen,
            forall|k: int| 0 <= k < j ==> text@[start + k] == pat@[k],
        decreases plen - j,
    {
        if text.get_char(start + j) != pat.get_char(j) {
            proof {
                let sub = text@.subrange(start as int, start as int + pat@.len());
                assert(sub[j as int] == text@[start + j as int]);
            }
            return false;
        }
        j += 1;
    }
    proof {
        assert(text@.subrange(start as int, start as int + pat@.len()) =~= pat@);
    }
    true
}

/// The first position at or after `from` holding `c`, if any.
pub(crate) fn find_char(text: &str, from: usize, c: char) -> (r: Option<usize>)
    ensures
        match r {
            Some(t) => find_from(text@, from as int, c) == Some(t as int) && from <= t
                < text@.len() && text@[t as int] == c,
            None => find_from(text@, from as int, c) is None,
        },
{
    let n = text.unicode_len();
    let mut i = from;
    while i < n
        invariant
            n == text@.len(),
            from <= i,
            find_from(text@, from as int, c) == find_from(text@, i as int, c),
        decreases n - i,
    {
        if text.get_char(i) == c {
            return Some(i);
        }
        i += 1;
    }
    None
}

/// The first position at or after `from` holding a non-digit, or the end.
pub(crate) fn digits_end_exec(text: &str, from: usize) -> (e: usize)
    ensures
        e as int == digits_end(text@, from as int),
        from <= e <= text@.len() || e == from,
{
    let n = text.unicode_len();
    let mut e = from;
    if e > n {
        return e;
    }
    while e < n
        invariant
            n == text@.len(),
            from <= e <= n,
            digits_end(text@, from as int) == digits_end(text@, e as int),
        decreases n - e,
    {
        let c = text.get_char(e);
        if (c as u32) < 48 || (c as u32) > 57 {
            return e;
        }
        e += 1;
    }
    e
}

/// Every digit run denotes a number that is at least zero.
pub(crate) proof fn lemma_digits_val_nonneg(ds: Seq<char>)
    requires
        forall|j: int| 0 <= j < ds.len() ==> is_digit(ds[j]),
    ensures
        digits_val(ds) >= 0,
    decreases ds.len(),
{
    if ds.len() > 0 {
        assert forall|j: int| 0 <= j < ds.drop_last().len() implies is_digit(
            ds.drop_last()[j],
        ) by {
            assert(ds.drop_last()[j] == ds[j]);
        }
        lemma_digits_val_nonneg(ds.drop_last());
    }
}

/// Extending a digit run by one digit multiplies its value by ten and adds
/// the digit.
pub(crate) proof fn lemma_digits_val_step(s: Seq<char>, d0: int, i: int)
    requires
        0 <= d0 <= i < s.len(),
    ensures
        digits_val(s.subrange(d0, i + 1)) == digits_val(s.subrange(d0, i)) * 10 + (s[i] as u32 - (
        '0' as u32)),
{
    let a = s.subrange(d0, i + 1);
    assert(a.drop_last() =~= s.subrange(d0, i));
    assert(a.last() == s[i]);
}

/// A longer digit run never denotes a smaller number.
pub(crate) proof fn lemma_digits_val_grows(s: Seq<char>, d0: int, i: int, e: int)
    requires
        0 <= d0 <= i <= e <= s.len(),
        forall|j: int| d0 <= j < e ==> #[trigger] is_digit(s[j]),
    ensures
        digits_val(s.subrange(d0, e)) >= digits_val(s.subrange(d0, i)),
    decreases e - i,
{
    if i < e {
        lemma_digits_val_step(s, d0, i);
        assert forall|j: int| 0 <= j < s.subrange(d0, i).len() implies is_digit(
            s.subrange(d0, i)[j],
        ) by {
            assert(s.subrange(d0, i)[j] == s[d0 + j]);
            assert(is_digit(s[d0 + j]));
        }
        lemma_digits_val_nonneg(s.subrange(d0, i));
        assert(is_digit(s[i]));
        assert(digits_val(s.subrange(d0, i + 1)) >= digits_val(s.subrange(d0, i)));
        lemma_digits_val_grows(s, d0, i + 1, e);
    }
}

/// The value of the digit run `text[d0..e]`, or `None` when it exceeds the
/// index type.
pub(crate) fn parse_digits_usize(text: &str, d0: usize, e: usize) -> (r: Option<usize>)
    requires
        d0 <= e <= text@.len(),
        forall|j: int| d0 <= j < e ==> #[trigger] is_digit(text@[j]),
    ensures
        match r {
            Some(v) => v as int == digits_val(text@.subrange(d0 as int, e as int)),
            None => digits_val(text@.subrange(d0 as int, e as int)) > usize::MAX as int,
        },
{
    let mut v: usize = 0;
    let mut i = d0;
    while i < e
        invariant
            d0 <= i <= e <= text@.len(),
            forall|j: int| d0 <= j < e ==> #[trigger] is_digit(text@[j]),
            v as int == digits_val(text@.subrange(d0 as int, i as int)),
        decreases e - i,
    {
        let c = text.get_char(i);
        proof {
            assert(is_digit(text@[i as int]));
        }
        let d: usize = ((c as u32) - 48) as usize;
        proof {
            lemma_digits_val_step(text@, d0 as int, i as int);
        }
        let v10 = match v.checked_mul(10) {
            Some(x) => x,
            None => {
                proof {
                    lemma_digits_val_grows(text@, d0 as int, i as int + 1, e as int);
                }
                return None;
            },
        };
        let vnext = match v10.checked_add(d) {
            Some(x) => x,
            None => {
                proof {
                    lemma_digits_val_grows(text@, d0 as int, i as int + 1, e as int);
                }
                return None;
            },
        };
        v = vnext;
        i += 1;
    }
    Some(v)
}

impl FormattedText {
    /// One attempted variable-catalogue entry.
    fn var_match(text: &str, start: usize, pat: &str) -> (r: Option<TextElement>)
        requires
            pat@.len() >= 2,
        ensures
            match r {
                Some(el) => spec_var_try(text@, start as int, pat@) matches Some(p) && p.0 == el@
                    && p.1 == start + el.value@.len(),
                None => spec_var_try(text@, start as int, pat@) is None,
            },
    {
        if match_at_exec(text, start, pat) {
            let n = text.unicode_len();
            let plen = pat.unicode_len();
            proof {
                assert(start + plen <= n);
            }
            let name = String::from_str(text.substring_char(start + 1, start + plen - 1));
            let value = String::from_str(text.substring_char(start, start + plen));
            Some(TextElement { kind: TextElementKind::Variable { name }, value })
        } else {
            None
        }
    }

    /// A known-variable reference at `start`: the first catalogue entry whose
    /// full name stands there.
    pub fn try_parse_variable(text: &str, start: usize) -> (r: Option<TextElement>)
        ensures
            match r {
                Some(el) => spec_try_variable(text@, start as int) matches Some(p) && p.0 == el@
                    && p.1 == start + el.value@.len(),
                None => spec_try_variable(text@, start as int) is None,
            },
    {
        proof {
            reveal_strlit("<ToStar>");
            reveal_strlit("<ToPlanet>");
            reveal_strlit("<FromStar>");
            reveal_strlit("<FromPlanet>");
            reveal_strlit("<Ranger>");
            reveal_strlit("<Date>");
            reveal_strlit("<Day>");
            reveal_strlit("<Money>");
        }
        if let Some(el) = Self::var_match(text, start, "<ToStar>") {
            return Some(el);
        }
        if let Some(el) = Self::var_match(text, start, "<ToPlanet>") {
            return Some(el);
        }
        if let Some(el) = Self::var_match(text, start, "<FromStar>") {
            return Some(el);
        }
        if let Some(el) = Self::var_match(text, start, "<FromPlanet>") {
            return Some(el);
        }
        if let Some(el) = Self::var_match(text, start, "<Ranger>") {
            return Some(el);
        }
        if let Some(el) = Self::var_match(text, start, "<Date>") {
            return Some(el);
        }
        if let Some(el) = Self::var_match(text, start, "<Day>") {
            return Some(el);
        }
        if let Some(el) = Self::var_match(text, start, "<Money>") {
            return Some(el);
        }
        None
    }

    /// The current-parameter placeholder `<>` at `start`.
    pub fn try_parse_current_parameter(text: &str, start: usize) -> (r: Option<TextElement>)
        ensures
            match r {
                Some(el) => spec_try_current_parameter(text@, start as int) matches Some(p) && p.0
                    == el@ && p.1 == start + el.value@.len(),
                None => spec_try_current_parameter(text@, start as int) is None,
            },
    {
        let n = text.unicode_len();
        if start >= n || n - start < 2 {
            return None;
        }
        if text.get_char(start) == '<' && text.get_char(start + 1) == '>' {
            let value = String::from_str(text.substring_char(start, start + 2));
            Some(TextElement { kind: TextElementKind::CurrentParameter, value })
        } else {
            None
        }
    }

    /// The position of the closing `>` of the literal open tag, when the tag
    /// stands at `start`.
    pub fn try_parse_text_selection_begin_tag_end(text: &str, start: usize) -> (r: Option<usize>)
        ensures
            match r {
                Some(e) => match_at(text@, start as int, "<clr>"@) && e == start + 4,
                None => !match_at(text@, start as int, "<clr>"@),
            },
    {
        proof {
            reveal_strlit("<clr>");
        }
        let n = text.unicode_len();
        if match_at_exec(text, start, "<clr>") {
            proof {
                assert(start + 5 <= n);
            }
            Some(start + 4)
        } else {
            None
        }
    }

    /// The position of the closing `>` of the literal close tag, when the tag
    /// stands at `start`.
    pub fn try_parse_text_selection_end_tag_end(text: &str, start: usize) -> (r: Option<usize>)
        ensures
            match r {
                Some(e) => match_at(text@, start as int, "<clrEnd>"@) && e == start + 7,
                None => !match_at(text@, start as int, "<clrEnd>"@),
            },
    {
        proof {
            reveal_strlit("<clrEnd>");
        }
        let n = text.unicode_len();
        if match_at_exec(text, start, "<clrEnd>") {
            proof {
                assert(start + 8 <= n);
            }
            Some(start + 7)
        } else {
            None
        }
    }

    /// A highlighted-selection span at `start`.
    pub fn try_parse_text_selection(text: &str, start: usize) -> (r: Option<TextElement>)
        ensures
            match r {
                Some(el) => spec_try_selection(text@, start as int) matches Some(p) && p.0 == el@
                    && p.1 == start + el.value@.len(),
                None => spec_try_selection(text@, start as int) is None,
            },
    {
        proof {
            reveal_strlit("<clr>");
            reveal_strlit("<clrEnd>");
        }
        let n = text.unicode_len();
        let begin_end = match Self::try_parse_text_selection_begin_tag_end(text, start) {
            Some(e) => e,
            None => {
                return None;
            },
        };
        proof {
            assert(start + 5 <= n);
        }
        let text_start = begin_end + 1;
        match find_char(text, text_start, '<') {
            Some(t) => {
                match Self::try_parse_text_selection_end_tag_end(text, t) {
                    Some(_end) => {
                        proof {
                            assert(t + 8 <= n);
                        }
                        let sel_text = String::from_str(text.substring_char(text_start, t));
                        let value = String::from_str(text.substring_char(start, t + 8));
                        Some(
                            TextElement {
                                kind: TextElementKind::Selection { text: sel_text },
                                value,
                            },
                        )
                    },
                    None => None,
                }
            },
            None => None,
        }
    }

    /// A brace-delimited formula span at `start`, everything up to the next
    /// closing brace.
    pub fn try_parse_formula(text: &str, start: usize) -> (r: Option<TextElement>)
        ensures
            match r {
                Some(el) => spec_try_formula(text@, start as int) matches Some(p) && p.0 == el@
                    && p.1 == start + el.value@.len(),
                None => spec_try_formula(text@, start as int) is None,
            },
    {
        let n = text.unicode_len();
        if start >= n {
            return None;
        }
        match find_char(text, start + 1, '}') {
            Some(t) => {
                let ftext = String::from_str(text.substring_char(start + 1, t));
                let value = String::from_str(text.substring_char(start, t + 1));
                Some(TextElement { kind: TextElementKind::Formula { text: ftext }, value })
            },
            None => None,
        }
    }

    /// A parameter reference `[p<digits>]` whose opening bracket stands at
    /// `start`; the bracket itself is the dispatcher's concern.
    pub fn try_parse_parameter(text: &str, start: usize) -> (r: Option<TextElement>)
        ensures
            match r {
                Some(el) => spec_markup_parameter(text@, start as int) matches Some(p) && p.0
                    == el@ && p.1 == start + el.value@.len(),
                None => spec_markup_parameter(text@, start as int) is None,
            },
    {
        let n = text.unicode_len();
        if start >= n || n - start < 2 {
            return None;
        }
        if text.get_char(start + 1) != 'p' {
            return None;
        }
        let d0 = start + 2;
        let e = digits_end_exec(text, d0);
        if e == d0 {
            return None;
        }
        if e >= n {
            return None;
        }
        if text.get_char(e) != ']' {
            return None;
        }
        proof {
            lemma_digits_end_digits(text@, d0 as int);
        }
        let index = match parse_digits_usize(text, d0, e) {
            Some(v) => v,
            None => {
                return None;
            },
        };
        let value = String::from_str(text.substring_char(start, e + 1));
        Some(TextElement { kind: TextElementKind::Parameter { index }, value })
    }
}

impl FormattedText {
    /// Flushes any buffered literal text `text[last..pos]` as one element.
    fn push_text(elements: &mut Vec<TextElement>, text: &str, last: usize, pos: usize)
        requires
            last <= pos <= text@.len(),
        ensures
            elems_view(final(elements)@) == flush_text(
                text@,
                elems_view(old(elements)@),
                last as int,
                pos as int,
            ),
    {
        let n = text.unicode_len();
        if last != n && last != pos {
            let value = String::from_str(text.substring_char(last, pos));
            let el = TextElement { kind: TextElementKind::Text, value };
            let ghost before = elems_view(elements@);
            elements.push(el);
            proof {
                assert(elems_view(elements@) =~= before.push(el@));
            }
        }
    }

    /// Scans one string left to right. Total: anything unrecognized stays
    /// literal text, and adjacent literal characters coalesce into one `Text`
    /// element.
    pub fn parse(text: &str) -> (r: FormattedText)
        ensures
            r@ == spec_scan_markup(text@),
    {
        let n = text.unicode_len();
        let mut elements: Vec<TextElement> = Vec::new();
        let mut pos: usize = 0;
        let mut last: usize = 0;
        proof {
            reveal(spec_scan_markup);
            assert(elems_view(elements@) =~= Seq::<TextElementView>::empty());
        }
        while pos < n
            invariant
                n == text@.len(),
                0 <= last <= pos <= n,
                spec_scan_markup(text@) == spec_scan_markup_from(
                    text@,
                    pos as int,
                    last as int,
                    elems_view(elements@),
                ),
            decreases n - pos,
        {
            let c = text.get_char(pos);
            let m: Option<TextElement> = if c == '<' {
                match Self::try_parse_variable(text, pos) {
                    Some(el) => Some(el),
                    None => match Self::try_parse_current_parameter(text, pos) {
                        Some(el) => Some(el),
                        None => Self::try_parse_text_selection(text, pos),
                    },
                }
            } else if c == '{' {
                Self::try_parse_formula(text, pos)
            } else if c == '\n' {
                let value = String::from_str(text.substring_char(pos, pos + 1));
                Some(TextElement { kind: TextElementKind::NewLine, value })
            } else if c == '\r' {
                if pos + 1 < n && text.get_char(pos + 1) == '\n' {
                    let value = String::from_str(text.substring_char(pos, pos + 2));
                    Some(TextElement { kind: TextElementKind::NewLine, value })
                } else {
                    None
                }
            } else if c == '[' {
                Self::try_parse_parameter(text, pos)
            } else {
                None
            };
            match m {
                Some(el) => {
                    proof {
                        assert(markup_element_at(text@, pos as int) matches Some(p) && p.0 == el@
                            && p.1 == pos + el.value@.len());
                    }
                    let elen = el.value.as_str().unicode_len();
                    Self::push_text(&mut elements, text, last, pos);
                    let ghost flushed = elems_view(elements@);
                    elements.push(el);
                    proof {
                        assert(elems_view(elements@) =~= flushed.push(el@));
                    }
                    pos = pos + elen;
                    last = pos;
                },
                None => {
                    proof {
                        assert(markup_element_at(text@, pos as int) is None);
                    }
                    pos = pos + 1;
                },
            }
        }
        Self::push_text(&mut elements, text, last, pos);
        FormattedText { elements }
    }

    /// The scanned string itself: the concatenation of every element's
    /// consumed text, in order.
    pub fn text(&self) -> (r: String)
        ensures
            r@ == concat_values(self@),
    {
        let mut r = String::new();
        let mut i: usize = 0;
        while i < self.elements.len()
            invariant
                0 <= i <= self.elements@.len(),
                r@ == concat_values(self@.take(i as int)),
            decreases self.elements@.len() - i,
        {
            r.append(self.elements[i].value.as_str());
            proof {
                assert(self@.take(i + 1) =~= self@.take(i as int).push(self@[i as int]));
                lemma_concat_values_push(self@.take(i as int), self@[i as int]);
            }
            i += 1;
        }
        proof {
            assert(self@.take(self.elements@.len() as int) =~= self@);
        }
        r
    }
}

impl TextElementKind {
    /// A copy whose model is the same.
    pub fn duplicate(&self) -> (r: TextElementKind)
        ensures
            r@ == self@,
    {
        match self {
            TextElementKind::Text => TextElementKind::Text,
            TextElementKind::Variable { name } => TextElementKind::Variable {
                name: name.clone(),
            },
            TextElementKind::Formula { text } => TextElementKind::Formula { text: text.clone() },
            TextElementKind::CurrentParameter => TextElementKind::CurrentParameter,
            TextElementKind::NewLine => TextElementKind::NewLine,
            TextElementKind::Selection { text } => TextElementKind::Selection {
                text: text.clone(),
            },
            TextElementKind::Parameter { index } => TextElementKind::Parameter { index: *index },
        }
    }
}

impl TextElement {
    /// A copy whose model is the same.
    pub fn duplicate(&self) -> (r: TextElement)
        ensures
            r@ == self@,
    {
        TextElement { kind: self.kind.duplicate(), value: self.value.clone() }
    }
}

impl FormattedText {
    /// A copy whose model is the same.
    pub fn duplicate(&self) -> (r: FormattedText)
        ensures
            r@ == self@,
    {
        let mut elements: Vec<TextElement> = Vec::new();
        let mut i: usize = 0;
        proof {
            assert(elems_view(elements@) =~= Seq::<TextElementView>::empty());
        }
        while i < self.elements.len()
            invariant
                0 <= i <= self.elements@.len(),
                elems_view(elements@) =~= self@.take(i as int),
            decreases self.elements@.len() - i,
        {
            let el = self.elements[i].duplicate();
            let ghost before = elems_view(elements@);
            let ghost ev = el@;
            elements.push(el);
            proof {
                assert(elems_view(elements@) =~= before.push(ev));
                assert(self@.take(i + 1) =~= self@.take(i as int).push(self@[i as int]));
                assert(self@[i as int] == self.elements@[i as int]@);
            }
            i += 1;
        }
        proof {
            assert(self@.take(self.elements@.len() as int) =~= self@);
        }
        FormattedText { elements }
    }
}

/// The concatenation of the consumed text of a sequence of elements.
pub open spec fn concat_values(els: Seq<TextElementView>) -> Seq<char>
    decreases els.len(),
{
    if els.len() == 0 {
        seq![]
    } else {
        els[0].value + concat_values(els.drop_first())
    }
}

/// Appending one element appends its consumed text.
pub proof fn lemma_concat_values_push(els: Seq<TextElementView>, el: TextElementView)
    ensures
        concat_values(els.push(el)) == concat_values(els) + el.value,
    decreases els.len(),
{
    if els.len() == 0 {
        assert(els.push(el).drop_first() =~= Seq::<TextElementView>::empty());
        assert(el.value + concat_values(Seq::<TextElementView>::empty()) =~= concat_values(els)
            + el.value);
    } else {
        assert(els.push(el).drop_first() =~= els.drop_first().push(el));
        lemma_concat_values_push(els.drop_first(), el);
        assert(els[0].value + (concat_values(els.drop_first()) + el.value) =~= (els[0].value
            + concat_values(els.drop_first())) + el.value);
    }
}

/// Whatever the scanner recognizes at a position consumes exactly the text
/// between that position and its end.
proof fn lemma_element_at_consumes(s: Seq<char>, pos: int)
    requires
        0 <= pos < s.len(),
    ensures
        markup_element_at(s, pos) matches Some(p) ==> pos < p.1 <= s.len() && p.0.value
            == s.subrange(pos, p.1),
{
}

/// The scan from any midpoint covers the rest of the input: concatenating the
/// emitted values extends the already-emitted text by `s[last..]`.
proof fn lemma_scan_from_total(s: Seq<char>, pos: int, last: int, acc: Seq<TextElementView>)
    requires
        0 <= last <= pos <= s.len(),
    ensures
        concat_values(spec_scan_markup_from(s, pos, last, acc)) == concat_values(acc) + s.subrange(
            last,
            s.len() as int,
        ),
    decreases s.len() - pos,
{
    if pos >= s.len() {
        if last != s.len() {
            lemma_concat_values_push(
                acc,
                TextElementView { kind: TextElementKindView::Text, value: s.subrange(last, pos) },
            );
        } else {
            assert(s.subrange(last, s.len() as int) =~= Seq::<char>::empty());
            assert(concat_values(acc) + Seq::<char>::empty() =~= concat_values(acc));
        }
    } else {
        lemma_element_at_consumes(s, pos);
        match markup_element_at(s, pos) {
            Some((el, end)) => {
                let acc1 = flush_text(s, acc, last, pos);
                if last != pos {
                    lemma_concat_values_push(
                        acc,
                        TextElementView {
                            kind: TextElementKindView::Text,
                            value: s.subrange(last, pos),
                        },
                    );
                } else {
                    assert(s.subrange(last, pos) =~= Seq::<char>::empty());
                }
                lemma_concat_values_push(acc1, el);
                lemma_scan_from_total(s, end, end, acc1.push(el));
                assert(concat_values(acc1) == concat_values(acc) + s.subrange(last, pos)) by {
                    if last == pos {
                        assert(concat_values(acc) + s.subrange(last, pos) =~= concat_values(acc));
                    }
                }
                assert((concat_values(acc) + s.subrange(last, pos) + s.subrange(pos, end))
                    + s.subrange(end, s.len() as int) =~= concat_values(acc) + s.subrange(
                    last,
                    s.len() as int,
                ));
            },
            None => {
                lemma_scan_from_total(s, pos + 1, last, acc);
            },
        }
    }
}

/// Concatenating the consumed text of every emitted element, in order,
/// reproduces the scanned string exactly, whatever it holds.
pub proof fn lemma_markup_total_coverage(s: Seq<char>)
    ensures
        concat_values(spec_scan_markup(s)) == s,
{
    reveal(spec_scan_markup);
    lemma_scan_from_total(s, 0, 0, seq![]);
    assert(concat_values(Seq::<TextElementView>::empty()) + s.subrange(0, s.len() as int) =~= s);
}

/// Scanning a string that holds none of the scanner's trigger characters
/// yields exactly one literal-text element carrying the whole string.
pub proof fn lemma_markup_plain_text(s: Seq<char>)
    requires
        s.len() > 0,
        forall|i: int|
            0 <= i < s.len() ==> #[trigger] s[i] != '<' && s[i] != '{' && s[i] != '[' && s[i]
                != '\n' && s[i] != '\r',
    ensures
        spec_scan_markup(s) == seq![
            TextElementView { kind: TextElementKindView::Text, value: s },
        ],
{
    reveal(spec_scan_markup);
    lemma_scan_plain_from(s, 0);
    assert(s.subrange(0, s.len() as int) =~= s);
    assert(Seq::<TextElementView>::empty().push(
        TextElementView { kind: TextElementKindView::Text, value: s.subrange(0, s.len() as int) },
    ) =~= seq![TextElementView { kind: TextElementKindView::Text, value: s }]);
}

/// The inductive step behind [`lemma_markup_plain_text`]: with no trigger
/// characters anywhere, every position just extends the literal run.
proof fn lemma_scan_plain_from(s: Seq<char>, pos: int)
    requires
        s.len() > 0,
        0 <= pos <= s.len(),
        forall|i: int|
            0 <= i < s.len() ==> #[trigger] s[i] != '<' && s[i] != '{' && s[i] != '[' && s[i]
                != '\n' && s[i] != '\r',
    ensures
        spec_scan_markup_from(s, pos, 0, seq![]) == Seq::<TextElementView>::empty().push(
            TextElementView {
                kind: TextElementKindView::Text,
                value: s.subrange(0, s.len() as int),
            },
        ),
    decreases s.len() - pos,
{
    if pos < s.len() {
        assert(markup_element_at(s, pos) is None);
        lemma_scan_plain_from(s, pos + 1);
    }
}

/// Everything between `from` and the digit run's end is a digit, and the end
/// never precedes `from`.
pub(crate) proof fn lemma_digits_end_digits(s: Seq<char>, from: int)
    requires
        0 <= from,
    ensures
        from <= digits_end(s, from) <= s.len() || digits_end(s, from) == from,
        forall|j: int| from <= j < digits_end(s, from) ==> #[trigger] is_digit(s[j]),
    decreases s.len() - from,
{
    if 0 <= from < s.len() && is_digit(s[from]) {
        lemma_digits_end_digits(s, from + 1);
    }
}

} // verus!


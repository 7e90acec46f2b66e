//! The jump decoder: the jump's scalar fields, its condition and
//! parameter-change lists, its gating formula, its two markup texts and its
//! media reference.

use vstd::prelude::*;

use crate::errors::{ParsingError, ParsingErrorView};
use crate::formula::{spec_scan_formula, Formula};
use crate::location::{parse_changes, spec_parse_changes};
use crate::markup::{spec_scan_markup, FormattedText};
use crate::primitive::{spec_read_bool, spec_read_f64_bits, spec_read_i32, PrimitiveParser};
use crate::qstring::{spec_read_string, StringParser};
use crate::records::{
    spec_parse_condition, spec_parse_media, JumpParameterConditionParser, MediaParser,
};
use crate::types::{
    conditions_view, Jump, JumpId, JumpParameterCondition, JumpParameterConditionView, JumpView,
    LocationId, MaxVisits,
};

verus! {

/// What reading a run of `n` jump-parameter-conditions at `pos` yields, with
/// `acc` the conditions already read.
pub open spec fn spec_parse_conditions(
    buf: Seq<u8>,
    pos: int,
    n: int,
    acc: Seq<JumpParameterConditionView>,
) -> Result<(Seq<JumpParameterConditionView>, int), ParsingErrorView>
    decreases n,
{
    if n <= 0 {
        Ok((acc, pos))
    } else {
        match spec_parse_condition(buf, pos) {
            Err(e) => Err(e),
            Ok((c, p)) => spec_parse_conditions(buf, p, n - 1, acc.push(c)),
        }
    }
}

/// The scalar fields of one jump record at `pos`: the priority bits, the
/// day-advance flag, the identifiers, the always-shown flag, the visit limit,
/// the display order and the declared condition count.
pub open spec fn spec_parse_jump_scalars(buf: Seq<u8>, pos: int) -> Result<
    ((u64, i32, i32, i32, i32, bool, i32, i32, i32), int),
    ParsingErrorView,
> {
    match spec_read_f64_bits(buf, pos) {
        Err(e) => Err(e),
        Ok((priority, p1)) => match spec_read_i32(buf, p1) {
            Err(e) => Err(e),
            Ok((day_flag, p2)) => match spec_read_i32(buf, p2) {
                Err(e) => Err(e),
                Ok((id, p3)) => match spec_read_i32(buf, p3) {
                    Err(e) => Err(e),
                    Ok((from, p4)) => match spec_read_i32(buf, p4) {
                        Err(e) => Err(e),
                        Ok((to, p5)) => match spec_read_bool(buf, p5) {
                            Err(e) => Err(e),
                            Ok((show_always, p6)) => match spec_read_i32(buf, p6) {
                                Err(e) => Err(e),
                                Ok((mv, p7)) => match spec_read_i32(buf, p7) {
                                    Err(e) => Err(e),
                                    Ok((show_order, p8)) => match spec_read_i32(buf, p8) {
                                        Err(e) => Err(e),
                                        Ok((cond_count, p9)) => Ok(
                                            (
                                                (
                                                    priority,
                                                    day_flag,
                                                    id,
                                                    from,
                                                    to,
                                                    show_always,
                                                    mv,
                                                    show_order,
                                                    cond_count,
                                                ),
                                                p9,
                                            ),
                                        ),
                                    },
                                },
                            },
                        },
                    },
                },
            },
        },
    }
}

/// What reading one jump record at `pos` yields: the scalar fields, the
/// condition and parameter-change lists, the gating formula, the two markup
/// texts and the media reference.
#[verifier::opaque]
pub open spec fn spec_parse_jump(buf: Seq<u8>, pos: int) -> Result<
    (JumpView, int),
    ParsingErrorView,
> {
    match spec_parse_jump_scalars(buf, pos) {
        Err(e) => Err(e),
        Ok((s, p9)) => match spec_parse_conditions(buf, p9, s.8 as int, Seq::empty()) {
            Err(e) => Err(e),
            Ok((parameters_conditions, p10)) => match spec_read_i32(buf, p10) {
                Err(e) => Err(e),
                Ok((changes_count, p11)) => match spec_parse_changes(
                    buf,
                    p11,
                    changes_count as int,
                    Seq::empty(),
                ) {
                    Err(e) => Err(e),
                    Ok((parameter_changes, p12)) => match spec_read_string(buf, p12) {
                        Err(e) => Err(e),
                        Ok((formula_text, p13)) => match spec_scan_formula(formula_text) {
                            Err(fe) => Err(
                                ParsingErrorView::InvalidFormula {
                                    error: fe,
                                    formula: formula_text,
                                },
                            ),
                            Ok(formula) => match spec_read_string(buf, p13) {
                                Err(e) => Err(e),
                                Ok((text, p14)) => match spec_read_string(buf, p14) {
                                    Err(e) => Err(e),
                                    Ok((description, p15)) => match spec_parse_media(buf, p15) {
                                        Err(e) => Err(e),
                                        Ok((media, p16)) => Ok(
                                            (
                                                JumpView {
                                                    priority: s.0,
                                                    do_pass_day: s.1 > 0,
                                                    id: JumpId(s.2 as u32),
                                                    from: LocationId(s.3 as u32),
                                                    to: LocationId(s.4 as u32),
                                                    show_always: s.5,
                                                    max_visits: if s.6 as u32 == 0 {
                                                        MaxVisits::Infinite
                                                    } else {
                                                        MaxVisits::Limit(s.6 as u32)
                                                    },
                                                    show_order: s.7 as u32,
                                                    parameters_conditions,
                                                    parameter_changes,
                                                    formula,
                                                    text: spec_scan_markup(text),
                                                    description: spec_scan_markup(description),
                                                    media,
                                                },
                                                p16,
                                            ),
                                        ),
                                    },
                                },
                            },
                        },
                    },
                },
            },
        },
    }
}

/// Decodes jump records.
pub struct JumpParser;

impl JumpParser {
    fn parse_conditions(buf: &[u8], pos: &mut usize, count: i32) -> (r: Result<
        Vec<JumpParameterCondition>,
        ParsingError,
    >)
        requires
            *old(pos) <= buf@.len(),
        ensures
            match r {
                Ok(v) => spec_parse_conditions(buf@, *old(pos) as int, count as int, Seq::empty())
                    == Ok::<(Seq<JumpParameterConditionView>, int), ParsingErrorView>(
                    (conditions_view(v@), *final(pos) as int),
                ) && *final(pos) <= buf@.len(),
                Err(e) => spec_parse_conditions(
                    buf@,
                    *old(pos) as int,
                    count as int,
                    Seq::empty(),
                ) == Err::<(Seq<JumpParameterConditionView>, int), ParsingErrorView>(e@),
            },
    {
        let mut conditions: Vec<JumpParameterCondition> = Vec::new();
        let mut iters: i32 = 0;
        proof {
            assert(conditions_view(conditions@) =~= Seq::<JumpParameterConditionView>::empty());
        }
        if count <= 0 {
            return Ok(conditions);
        }
        while iters < count
            invariant
                0 <= iters <= count,
                *pos <= buf@.len(),
                spec_parse_conditions(buf@, *old(pos) as int, count as int, Seq::empty())
                    == spec_parse_conditions(
                    buf@,
                    *pos as int,
                    count - iters,
                    conditions_view(conditions@),
                ),
            decreases count - iters,
        {
            let c = match JumpParameterConditionParser::parse(buf, pos) {
                Ok(c) => c,
                Err(e) => {
                    return Err(e);
                },
            };
            let ghost before = conditions_view(conditions@);
            let ghost cv = c@;
            conditions.push(c);
            proof {
                assert(conditions_view(conditions@) =~= before.push(cv));
            }
            iters += 1;
        }
        Ok(conditions)
    }

    /// Decodes one jump record at the cursor.
    pub fn parse(buf: &[u8], pos: &mut usize) -> (r: Result<Jump, ParsingError>)
        ensures
            match r {
                Ok(j) => spec_parse_jump(buf@, *old(pos) as int) == Ok::<
                    (JumpView, int),
                    ParsingErrorView,
                >((j@, *final(pos) as int)) && *final(pos) <= buf@.len(),
                Err(e) => spec_parse_jump(buf@, *old(pos) as int) == Err::<
                    (JumpView, int),
                    ParsingErrorView,
                >(e@),
            },
    {
        proof {
            reveal(spec_parse_jump);
        }
        let priority = match PrimitiveParser::parse_f64_bits(buf, pos) {
            Ok(v) => v,
            Err(e) => {
                return Err(e);
            },
        };
        let do_pass_day = match PrimitiveParser::parse_i32(buf, pos) {
            Ok(v) => v > 0,
            Err(e) => {
                return Err(e);
            },
        };
        let id = match PrimitiveParser::parse_i32(buf, pos) {
            Ok(v) => JumpId(v as u32),
            Err(e) => {
                return Err(e);
            },
        };
        let from = match PrimitiveParser::parse_i32(buf, pos) {
            Ok(v) => LocationId(v as u32),
            Err(e) => {
                return Err(e);
            },
        };
        let to = match PrimitiveParser::parse_i32(buf, pos) {
            Ok(v) => LocationId(v as u32),
            Err(e) => {
                return Err(e);
            },
        };
        let show_always = match PrimitiveParser::parse_bool(buf, pos) {
            Ok(v) => v,
            Err(e) => {
                return Err(e);
            },
        };
        let max_visits = match PrimitiveParser::parse_i32(buf, pos) {
            Ok(v) => {
                if v as u32 == 0 {
                    MaxVisits::Infinite
                } else {
                    MaxVisits::Limit(v as u32)
                }
            },
            Err(e) => {
                return Err(e);
            },
        };
        let show_order = match PrimitiveParser::parse_i32(buf, pos) {
            Ok(v) => v as u32,
            Err(e) => {
                return Err(e);
            },
        };
        let cond_count = match PrimitiveParser::parse_i32(buf, pos) {
            Ok(v) => v,
            Err(e) => {
                return Err(e);
            },
        };
        let parameters_conditions = match Self::parse_conditions(buf, pos, cond_count) {
            Ok(v) => v,
            Err(e) => {
                return Err(e);
            },
        };
        let changes_count = match PrimitiveParser::parse_i32(buf, pos) {
            Ok(v) => v,
            Err(e) => {
                return Err(e);
            },
        };
        let parameter_changes = match parse_changes(buf, pos, changes_count) {
            Ok(v) => v,
            Err(e) => {
                return Err(e);
            },
        };
        let formula_text = match StringParser::parse(buf, pos) {
            Ok(s) => s,
            Err(e) => {
                return Err(e);
            },
        };
        let formula = match Formula::parse(formula_text.as_str()) {
            Ok(f) => f,
            Err(err) => {
                return Err(ParsingError::InvalidFormula { error: err, formula: formula_text });
            },
        };
        let text_raw = match StringParser::parse(buf, pos) {
            Ok(s) => s,
            Err(e) => {
                return Err(e);
            },
        };
        let text = FormattedText::parse(text_raw.as_str());
        let description_raw = match StringParser::parse(buf, pos) {
            Ok(s) => s,
            Err(e) => {
                return Err(e);
            },
        };
        let description = FormattedText::parse(description_raw.as_str());
        let media = match MediaParser::parse(buf, pos) {
            Ok(m) => m,
            Err(e) => {
                return Err(e);
            },
        };
        Ok(
            Jump {
                priority,
                do_pass_day,
                id,
                from,
                to,
                show_always,
                max_visits,
                show_order,
                parameters_conditions,
                parameter_changes,
                formula,
                text,
                description,
                media,
            },
        )
    }
}

} // verus!

//! The decoders for parameter records and parameter-change records.

use vstd::prelude::*;

use crate::errors::{ParameterChangeError, ParameterError, ParsingError, ParsingErrorView};
use crate::formula::{spec_scan_formula, Formula};
use crate::primitive::{spec_read_bool, spec_read_byte, spec_read_i32, PrimitiveParser};
use crate::qstring::{spec_read_string, StringParser};
use crate::records::{spec_parse_media, MediaParser};
use crate::types::{
    lines_view, spec_parameter_change_type_of, spec_parameter_show_type_of, spec_parameter_type_of,
    CriticalValue, FormattedRangeLine, FormattedRangeLineView, Parameter, ParameterChange,
    ParameterChangeType, ParameterChangeView, ParameterShowType, ParameterType, ParameterView,
};

verus! {

/// What reading one parameter-change record at `pos` yields. The scalar field
/// after the target identifier is structural only and is skipped; the change
/// formula runs through the formula scanner, and its failure is fatal.
#[verifier::opaque]
pub open spec fn spec_parse_parameter_change(buf: Seq<u8>, pos: int) -> Result<
    (ParameterChangeView, int),
    ParsingErrorView,
> {
    match spec_read_i32(buf, pos) {
        Err(e) => Err(e),
        Ok((id, p1)) => match spec_read_i32(buf, p1) {
            Err(e) => Err(e),
            Ok((_skipped, p2)) => match spec_read_byte(buf, p2) {
                Err(e) => Err(e),
                Ok((show_byte, p3)) => match spec_parameter_show_type_of(show_byte) {
                    Err(()) => Err(
                        ParsingErrorView::InvalidParameterChange(
                            ParameterChangeError::InvalidShowType,
                        ),
                    ),
                    Ok(show_type) => match spec_read_byte(buf, p3) {
                        Err(e) => Err(e),
                        Ok((change_byte, p4)) => match spec_parameter_change_type_of(change_byte) {
                            Err(()) => Err(
                                ParsingErrorView::InvalidParameterChange(
                                    ParameterChangeError::InvalidChangeType,
                                ),
                            ),
                            Ok(change_type) => match spec_read_string(buf, p4) {
                                Err(e) => Err(e),
                                Ok((formula_text, p5)) => match spec_scan_formula(formula_text) {
                                    Err(fe) => Err(
                                        ParsingErrorView::InvalidFormula {
                                            error: fe,
                                            formula: formula_text,
                                        },
                                    ),
                                    Ok(formula) => match spec_read_string(buf, p5) {
                                        Err(e) => Err(e),
                                        Ok((critical_text, p6)) => match spec_parse_media(
                                            buf,
                                            p6,
                                        ) {
                                            Err(e) => Err(e),
                                            Ok((media, p7)) => Ok(
                                                (
                                                    ParameterChangeView {
                                                        parameter_id: id as u32,
                                                        show_type,
                                                        change_type,
                                                        formula,
                                                        critical_text,
                                                        media,
                                                    },
                                                    p7,
                                                ),
                                            ),
                                        },
                                    },
                                },
                            },
                        },
                    },
                },
            },
        },
    }
}

/// Decodes parameter-change records.
pub struct ParameterChangeParser;

impl ParameterChangeParser {
    /// Decodes one parameter-change record at the cursor.
    pub fn parse(buf: &[u8], pos: &mut usize) -> (r: Result<ParameterChange, ParsingError>)
        ensures
            match r {
                Ok(c) => spec_parse_parameter_change(buf@, *old(pos) as int) == Ok::<
                    (ParameterChangeView, int),
                    ParsingErrorView,
                >((c@, *final(pos) as int)) && *final(pos) <= buf@.len(),
                Err(e) => spec_parse_parameter_change(buf@, *old(pos) as int) == Err::<
                    (ParameterChangeView, int),
                    ParsingErrorView,
                >(e@),
            },
    {
        proof {
            reveal(spec_parse_parameter_change);
        }
        let parameter_id = match PrimitiveParser::parse_i32(buf, pos) {
            Ok(v) => v as u32,
            Err(e) => {
                return Err(e);
            },
        };
        match PrimitiveParser::parse_i32(buf, pos) {
            Ok(_) => (),
            Err(e) => {
                return Err(e);
            },
        };
        let show_type = match PrimitiveParser::parse_byte(buf, pos) {
            Ok(b) => match ParameterShowType::try_from(b) {
                Ok(v) => v,
                Err(()) => {
                    return Err(
                        ParsingError::InvalidParameterChange(ParameterChangeError::InvalidShowType),
                    );
                },
            },
            Err(e) => {
                return Err(e);
            },
        };
        let change_type = match PrimitiveParser::parse_byte(buf, pos) {
            Ok(b) => match ParameterChangeType::try_from(b) {
                Ok(v) => v,
                Err(()) => {
                    return Err(
                        ParsingError::InvalidParameterChange(
                            ParameterChangeError::InvalidChangeType,
                        ),
                    );
                },
            },
            Err(e) => {
                return Err(e);
            },
        };
        let formula_text = match StringParser::parse(buf, pos) {
            Ok(s) => s,
            Err(e) => {
                return Err(e);
            },
        };
        let formula = match Formula::parse(formula_text.as_str()) {
            Ok(f) => f,
            Err(err) => {
                return Err(ParsingError::InvalidFormula { error: err, formula: formula_text });
            },
        };
        let critical_text = match StringParser::parse(buf, pos) {
            Ok(s) => s,
            Err(e) => {
                return Err(e);
            },
        };
        let media = match MediaParser::parse(buf, pos) {
            Ok(m) => m,
            Err(e) => {
                return Err(e);
            },
        };
        Ok(
            ParameterChange {
                parameter_id,
                show_type,
                change_type,
                formula,
                critical_text,
                media,
            },
        )
    }
}

/// What reading one display rule at `pos` yields: the closed interval and its
/// text.
pub open spec fn spec_parse_range_line(buf: Seq<u8>, pos: int) -> Result<
    (FormattedRangeLineView, int),
    ParsingErrorView,
> {
    match spec_read_i32(buf, pos) {
        Err(e) => Err(e),
        Ok((from, p1)) => match spec_read_i32(buf, p1) {
            Err(e) => Err(e),
            Ok((to, p2)) => match spec_read_string(buf, p2) {
                Err(e) => Err(e),
                Ok((value, p3)) => Ok((FormattedRangeLineView { from, to, value }, p3)),
            },
        },
    }
}

/// What reading a run of `n` display rules at `pos` yields, with `acc` the
/// rules already read.
pub open spec fn spec_parse_range_lines(
    buf: Seq<u8>,
    pos: int,
    n: int,
    acc: Seq<FormattedRangeLineView>,
) -> Result<(Seq<FormattedRangeLineView>, int), ParsingErrorView>
    decreases n,
{
    if n <= 0 {
        Ok((acc, pos))
    } else {
        match spec_parse_range_line(buf, pos) {
            Err(e) => Err(e),
            Ok((line, p)) => spec_parse_range_lines(buf, p, n - 1, acc.push(line)),
        }
    }
}

/// The scalar fields of one parameter record at `pos`: the bounds, the type
/// tag (followed by three structural zero bytes), the show and critical-side
/// flags, the activity flag, the display-rule count and the money flag.
pub open spec fn spec_parse_parameter_scalars(buf: Seq<u8>, pos: int) -> Result<
    ((i32, i32, ParameterType, bool, CriticalValue, bool, i32, bool), int),
    ParsingErrorView,
> {
    match spec_read_i32(buf, pos) {
        Err(e) => Err(e),
        Ok((min_value, p1)) => match spec_read_i32(buf, p1) {
            Err(e) => Err(e),
            Ok((max_value, p2)) => match spec_read_byte(buf, p2) {
                Err(e) => Err(e),
                Ok((ty_byte, p3)) => match spec_parameter_type_of(ty_byte) {
                    Err(()) => Err(ParsingErrorView::InvalidParameter(ParameterError::InvalidType)),
                    Ok(ty) => match spec_read_bool(buf, p3 + 3) {
                        Err(e) => Err(e),
                        Ok((show_when_zero, p4)) => match spec_read_byte(buf, p4) {
                            Err(e) => Err(e),
                            Ok((cv_byte, p5)) => {
                                if !(cv_byte == 0 || cv_byte == 1) {
                                    Err(
                                        ParsingErrorView::InvalidParameter(
                                            ParameterError::InvalidCriticalValue,
                                        ),
                                    )
                                } else {
                                    let critical_value = if cv_byte == 0 {
                                        CriticalValue::Max
                                    } else {
                                        CriticalValue::Min
                                    };
                                    match spec_read_bool(buf, p5) {
                                        Err(e) => Err(e),
                                        Ok((is_active, p6)) => match spec_read_i32(buf, p6) {
                                            Err(e) => Err(e),
                                            Ok((lines_count, p7)) => match spec_read_bool(
                                                buf,
                                                p7,
                                            ) {
                                                Err(e) => Err(e),
                                                Ok((is_money, p8)) => Ok(
                                                    (
                                                        (
                                                            min_value,
                                                            max_value,
                                                            ty,
                                                            show_when_zero,
                                                            critical_value,
                                                            is_active,
                                                            lines_count,
                                                            is_money,
                                                        ),
                                                        p8,
                                                    ),
                                                ),
                                            },
                                        },
                                    }
                                }
                            },
                        },
                    },
                },
            },
        },
    }
}

/// What reading one parameter record at `pos` yields: the scalar fields, the
/// name, the declared run of display rules, and five trailing strings.
#[verifier::opaque]
pub open spec fn spec_parse_parameter(buf: Seq<u8>, pos: int) -> Result<
    (ParameterView, int),
    ParsingErrorView,
> {
    match spec_parse_parameter_scalars(buf, pos) {
        Err(e) => Err(e),
        Ok((s, p8)) => match spec_read_string(buf, p8) {
            Err(e) => Err(e),
            Ok((name, p9)) => match spec_parse_range_lines(
                buf,
                p9,
                (s.6 as usize) as int,
                Seq::empty(),
            ) {
                Err(e) => Err(e),
                Ok((lines, p10)) => match spec_read_string(buf, p10) {
                    Err(e) => Err(e),
                    Ok((critical_text, p11)) => match spec_read_string(buf, p11) {
                        Err(e) => Err(e),
                        Ok((image, p12)) => match spec_read_string(buf, p12) {
                            Err(e) => Err(e),
                            Ok((sound, p13)) => match spec_read_string(buf, p13) {
                                Err(e) => Err(e),
                                Ok((track, p14)) => match spec_read_string(buf, p14) {
                                    Err(e) => Err(e),
                                    Ok((starting_value, p15)) => Ok(
                                        (
                                            ParameterView {
                                                min_value: s.0,
                                                max_value: s.1,
                                                ty: s.2,
                                                show_when_zero: s.3,
                                                critical_value: s.4,
                                                is_active: s.5,
                                                is_money: s.7,
                                                name,
                                                formatted_range_lines: lines,
                                                critical_text,
                                                image,
                                                sound,
                                                track,
                                                starting_value,
                                            },
                                            p15,
                                        ),
                                    ),
                                },
                            },
                        },
                    },
                },
            },
        },
    }
}

/// Decodes parameter records.
pub struct ParameterParser;

impl ParameterParser {
    fn parse_range_lines(buf: &[u8], pos: &mut usize, count: usize) -> (r: Result<
        Vec<FormattedRangeLine>,
        ParsingError,
    >)
        requires
            *old(pos) <= buf@.len(),
        ensures
            match r {
                Ok(v) => spec_parse_range_lines(
                    buf@,
                    *old(pos) as int,
                    count as int,
                    Seq::empty(),
                ) == Ok::<(Seq<FormattedRangeLineView>, int), ParsingErrorView>(
                    (lines_view(v@), *final(pos) as int),
                ) && *final(pos) <= buf@.len(),
                Err(e) => spec_parse_range_lines(
                    buf@,
                    *old(pos) as int,
                    count as int,
                    Seq::empty(),
                ) == Err::<(Seq<FormattedRangeLineView>, int), ParsingErrorView>(e@),
            },
    {
        let mut lines: Vec<FormattedRangeLine> = Vec::new();
        let mut iters: usize = 0;
        proof {
            assert(lines_view(lines@) =~= Seq::<FormattedRangeLineView>::empty());
        }
        while iters < count
            invariant
                0 <= iters <= count,
                *pos <= buf@.len(),
                spec_parse_range_lines(buf@, *old(pos) as int, count as int, Seq::empty())
                    == spec_parse_range_lines(
                    buf@,
                    *pos as int,
                    count - iters,
                    lines_view(lines@),
                ),
            decreases count - iters,
        {
            let from = match PrimitiveParser::parse_i32(buf, pos) {
                Ok(v) => v,
                Err(e) => {
                    return Err(e);
                },
            };
            let to = match PrimitiveParser::parse_i32(buf, pos) {
                Ok(v) => v,
                Err(e) => {
                    return Err(e);
                },
            };
            let value = match StringParser::parse(buf, pos) {
                Ok(s) => s,
                Err(e) => {
                    return Err(e);
                },
            };
            let line = FormattedRangeLine { from, to, value };
            let ghost before = lines_view(lines@);
            lines.push(line);
            proof {
                assert(lines_view(lines@) =~= before.push(line@));
            }
            iters += 1;
        }
        Ok(lines)
    }

    /// Decodes one parameter record at the cursor.
    pub fn parse(buf: &[u8], pos: &mut usize) -> (r: Result<Parameter, ParsingError>)
        ensures
            match r {
                Ok(p) => spec_parse_parameter(buf@, *old(pos) as int) == Ok::<
                    (ParameterView, int),
                    ParsingErrorView,
                >((p@, *final(pos) as int)) && *final(pos) <= buf@.len(),
                Err(e) => spec_parse_parameter(buf@, *old(pos) as int) == Err::<
                    (ParameterView, int),
                    ParsingErrorView,
                >(e@),
            },
    {
        proof {
            reveal(spec_parse_parameter);
        }
        let min_value = match PrimitiveParser::parse_i32(buf, pos) {
            Ok(v) => v,
            Err(e) => {
                return Err(e);
            },
        };
        let max_value = match PrimitiveParser::parse_i32(buf, pos) {
            Ok(v) => v,
            Err(e) => {
                return Err(e);
            },
        };
        let ty = match PrimitiveParser::parse_byte(buf, pos) {
            Ok(b) => match ParameterType::try_from(b) {
                Ok(v) => v,
                Err(()) => {
                    return Err(ParsingError::InvalidParameter(ParameterError::InvalidType));
                },
            },
            Err(e) => {
                return Err(e);
            },
        };
        // Three structural zero bytes are skipped.
        let n = buf.len();
        if *pos >= n || n - *pos < 3 {
            return Err(ParsingError::Incomplete);
        }
        *pos = *pos + 3;
        let show_when_zero = match PrimitiveParser::parse_bool(buf, pos) {
            Ok(v) => v,
            Err(e) => {
                return Err(e);
            },
        };
        let critical_value = match PrimitiveParser::parse_byte(buf, pos) {
            Ok(0x00) => CriticalValue::Max,
            Ok(0x01) => CriticalValue::Min,
            Ok(_) => {
                return Err(ParsingError::InvalidParameter(ParameterError::InvalidCriticalValue));
            },
            Err(e) => {
                return Err(e);
            },
        };
        let is_active = match PrimitiveParser::parse_bool(buf, pos) {
            Ok(v) => v,
            Err(e) => {
                return Err(e);
            },
        };
        let lines_count = match PrimitiveParser::parse_i32(buf, pos) {
            Ok(v) => v as usize,
            Err(e) => {
                return Err(e);
            },
        };
        let is_money = match PrimitiveParser::parse_bool(buf, pos) {
            Ok(v) => v,
            Err(e) => {
                return Err(e);
            },
        };
        let name = match StringParser::parse(buf, pos) {
            Ok(s) => s,
            Err(e) => {
                return Err(e);
            },
        };
        let formatted_range_lines = match Self::parse_range_lines(buf, pos, lines_count) {
            Ok(v) => v,
            Err(e) => {
                return Err(e);
            },
        };
        let critical_text = match StringParser::parse(buf, pos) {
            Ok(s) => s,
            Err(e) => {
                return Err(e);
            },
        };
        let image = match StringParser::parse(buf, pos) {
            Ok(s) => s,
            Err(e) => {
                return Err(e);
            },
        };
        let sound = match StringParser::parse(buf, pos) {
            Ok(s) => s,
            Err(e) => {
                return Err(e);
            },
        };
        let track = match StringParser::parse(buf, pos) {
            Ok(s) => s,
            Err(e) => {
                return Err(e);
            },
        };
        let starting_value = match StringParser::parse(buf, pos) {
            Ok(s) => s,
            Err(e) => {
                return Err(e);
            },
        };
        Ok(
            Parameter {
                min_value,
                max_value,
                ty,
                show_when_zero,
                critical_value,
                is_active,
                is_money,
                name,
                formatted_range_lines,
                critical_text,
                image,
                sound,
                track,
                starting_value,
            },
        )
    }
}

} // verus!

//! The record decoders for the document's fixed-layout records: media
//! references, the string-replacement block, the quest-info block, and
//! jump-parameter-conditions.

use vstd::prelude::*;

use crate::errors::{ParsingError, ParsingErrorView};
use crate::markup::{spec_scan_markup, FormattedText, TextElementView};
use crate::primitive::{spec_read_bool, spec_read_i32, PrimitiveParser};
use crate::qstring::{spec_read_string, StringParser};
use crate::types::{
    Info, InfoView, JumpParameterCondition, JumpParameterConditionView, Media, MediaView,
    StringReplacements, StringReplacementsView,
};

verus! {

/// What reading one media reference at `pos` yields: three asset-name
/// strings.
#[verifier::opaque]
pub open spec fn spec_parse_media(buf: Seq<u8>, pos: int) -> Result<
    (MediaView, int),
    ParsingErrorView,
> {
    match spec_read_string(buf, pos) {
        Err(e) => Err(e),
        Ok((image, p1)) => match spec_read_string(buf, p1) {
            Err(e) => Err(e),
            Ok((sound, p2)) => match spec_read_string(buf, p2) {
                Err(e) => Err(e),
                Ok((track, p3)) => Ok((MediaView { image, sound, track }, p3)),
            },
        },
    }
}

/// Decodes media references.
pub struct MediaParser;

impl MediaParser {
    /// Decodes one media reference at the cursor.
    pub fn parse(buf: &[u8], pos: &mut usize) -> (r: Result<Media, ParsingError>)
        ensures
            match r {
                Ok(m) => spec_parse_media(buf@, *old(pos) as int) == Ok::<
                    (MediaView, int),
                    ParsingErrorView,
                >((m@, *final(pos) as int)) && *final(pos) <= buf@.len(),
                Err(e) => spec_parse_media(buf@, *old(pos) as int) == Err::<
                    (MediaView, int),
                    ParsingErrorView,
                >(e@),
            },
    {
        proof {
            reveal(spec_parse_media);
        }
        let image = match StringParser::parse(buf, pos) {
            Ok(s) => s,
            Err(e) => {
                return Err(e);
            },
        };
        let sound = match StringParser::parse(buf, pos) {
            Ok(s) => s,
            Err(e) => {
                return Err(e);
            },
        };
        let track = match StringParser::parse(buf, pos) {
            Ok(s) => s,
            Err(e) => {
                return Err(e);
            },
        };
        Ok(Media { image, sound, track })
    }
}

/// What reading the string-replacement block at `pos` yields: seven strings
/// in file order, of which the third and fourth are structural only and are
/// skipped.
pub open spec fn spec_parse_string_replacements(buf: Seq<u8>, pos: int) -> Result<
    (StringReplacementsView, int),
    ParsingErrorView,
> {
    match spec_read_string(buf, pos) {
        Err(e) => Err(e),
        Ok((to_star, p1)) => match spec_read_string(buf, p1) {
            Err(e) => Err(e),
            Ok((to_planet, p2)) => match spec_read_string(buf, p2) {
                Err(e) => Err(e),
                Ok((_date, p3)) => match spec_read_string(buf, p3) {
                    Err(e) => Err(e),
                    Ok((_money, p4)) => match spec_read_string(buf, p4) {
                        Err(e) => Err(e),
                        Ok((from_planet, p5)) => match spec_read_string(buf, p5) {
                            Err(e) => Err(e),
                            Ok((from_star, p6)) => match spec_read_string(buf, p6) {
                                Err(e) => Err(e),
                                Ok((ranger, p7)) => Ok(
                                    (
                                        StringReplacementsView {
                                            to_star,
                                            to_planet,
                                            from_planet,
                                            from_star,
                                            ranger,
                                        },
                                        p7,
                                    ),
                                ),
                            },
                        },
                    },
                },
            },
        },
    }
}

/// Decodes the string-replacement block.
pub struct StringReplacementsParser;

impl StringReplacementsParser {
    /// Decodes the block at the cursor.
    pub fn parse(buf: &[u8], pos: &mut usize) -> (r: Result<StringReplacements, ParsingError>)
        ensures
            match r {
                Ok(s) => spec_parse_string_replacements(buf@, *old(pos) as int) == Ok::<
                    (StringReplacementsView, int),
                    ParsingErrorView,
                >((s@, *final(pos) as int)) && *final(pos) <= buf@.len(),
                Err(e) => spec_parse_string_replacements(buf@, *old(pos) as int) == Err::<
                    (StringReplacementsView, int),
                    ParsingErrorView,
                >(e@),
            },
    {
        let to_star = match StringParser::parse(buf, pos) {
            Ok(s) => s,
            Err(e) => {
                return Err(e);
            },
        };
        let to_planet = match StringParser::parse(buf, pos) {
            Ok(s) => s,
            Err(e) => {
                return Err(e);
            },
        };
        // The date and money placeholder strings are skipped.
        match StringParser::parse(buf, pos) {
            Ok(_) => (),
            Err(e) => {
                return Err(e);
            },
        };
        match StringParser::parse(buf, pos) {
            Ok(_) => (),
            Err(e) => {
                return Err(e);
            },
        };
        let from_planet = match StringParser::parse(buf, pos) {
            Ok(s) => s,
            Err(e) => {
                return Err(e);
            },
        };
        let from_star = match StringParser::parse(buf, pos) {
            Ok(s) => s,
            Err(e) => {
                return Err(e);
            },
        };
        let ranger = match StringParser::parse(buf, pos) {
            Ok(s) => s,
            Err(e) => {
                return Err(e);
            },
        };
        Ok(StringReplacements { to_star, to_planet, from_planet, from_star, ranger })
    }
}

/// What reading the quest-info block at `pos` yields: the declared location
/// and jump counts, then the success and task texts run through the markup
/// scanner.
pub open spec fn spec_parse_info(buf: Seq<u8>, pos: int) -> Result<
    (InfoView, int),
    ParsingErrorView,
> {
    match spec_read_i32(buf, pos) {
        Err(e) => Err(e),
        Ok((lc, p1)) => match spec_read_i32(buf, p1) {
            Err(e) => Err(e),
            Ok((jc, p2)) => match spec_read_string(buf, p2) {
                Err(e) => Err(e),
                Ok((success, p3)) => match spec_read_string(buf, p3) {
                    Err(e) => Err(e),
                    Ok((task, p4)) => Ok(
                        (
                            InfoView {
                                locations_count: lc as u32,
                                jumps_count: jc as u32,
                                success_text: spec_scan_markup(success),
                                task_text: spec_scan_markup(task),
                            },
                            p4,
                        ),
                    ),
                },
            },
        },
    }
}

/// Decodes the quest-info block.
pub struct InfoParser;

impl InfoParser {
    /// Decodes the block at the cursor.
    pub fn parse(buf: &[u8], pos: &mut usize) -> (r: Result<Info, ParsingError>)
        ensures
            match r {
                Ok(i) => spec_parse_info(buf@, *old(pos) as int) == Ok::<
                    (InfoView, int),
                    ParsingErrorView,
                >((i@, *final(pos) as int)) && *final(pos) <= buf@.len(),
                Err(e) => spec_parse_info(buf@, *old(pos) as int) == Err::<
                    (InfoView, int),
                    ParsingErrorView,
                >(e@),
            },
    {
        let locations_count = match PrimitiveParser::parse_i32(buf, pos) {
            Ok(v) => v as u32,
            Err(e) => {
                return Err(e);
            },
        };
        let jumps_count = match PrimitiveParser::parse_i32(buf, pos) {
            Ok(v) => v as u32,
            Err(e) => {
                return Err(e);
            },
        };
        let success_raw = match StringParser::parse(buf, pos) {
            Ok(s) => s,
            Err(e) => {
                return Err(e);
            },
        };
        let success_text = FormattedText::parse(success_raw.as_str());
        let task_raw = match StringParser::parse(buf, pos) {
            Ok(s) => s,
            Err(e) => {
                return Err(e);
            },
        };
        let task_text = FormattedText::parse(task_raw.as_str());
        Ok(Info { locations_count, jumps_count, success_text, task_text })
    }
}

/// What reading a run of `n` 32-bit values at `pos` yields, with `acc` the
/// values already read.
pub open spec fn spec_parse_i32_values(buf: Seq<u8>, pos: int, n: int, acc: Seq<i32>) -> Result<
    (Seq<i32>, int),
    ParsingErrorView,
>
    decreases n,
{
    if n <= 0 {
        Ok((acc, pos))
    } else {
        match spec_read_i32(buf, pos) {
            Err(e) => Err(e),
            Ok((v, p)) => spec_parse_i32_values(buf, p, n - 1, acc.push(v)),
        }
    }
}

/// Reads a run of 32-bit values; a negative declared count means none.
fn parse_i32_values(buf: &[u8], pos: &mut usize, count: i32) -> (r: Result<
    Vec<i32>,
    ParsingError,
>)
    requires
        *old(pos) <= buf@.len(),
    ensures
        match r {
            Ok(v) => spec_parse_i32_values(buf@, *old(pos) as int, count as int, Seq::empty())
                == Ok::<(Seq<i32>, int), ParsingErrorView>((v@, *final(pos) as int)) && *final(pos)
                <= buf@.len(),
            Err(e) => spec_parse_i32_values(buf@, *old(pos) as int, count as int, Seq::empty())
                == Err::<(Seq<i32>, int), ParsingErrorView>(e@),
        },
{
    let mut values: Vec<i32> = Vec::new();
    let mut iters: i32 = 0;
    if count <= 0 {
        return Ok(values);
    }
    while iters < count
        invariant
            0 <= iters <= count,
            *pos <= buf@.len(),
            values@.len() == iters,
            spec_parse_i32_values(buf@, *old(pos) as int, count as int, Seq::empty())
                == spec_parse_i32_values(buf@, *pos as int, count - iters, values@),
        decreases count - iters,
    {
        let v = match PrimitiveParser::parse_i32(buf, pos) {
            Ok(v) => v,
            Err(e) => {
                return Err(e);
            },
        };
        values.push(v);
        iters += 1;
    }
    Ok(values)
}

/// What reading one jump-parameter-condition at `pos` yields.
#[verifier::opaque]
pub open spec fn spec_parse_condition(buf: Seq<u8>, pos: int) -> Result<
    (JumpParameterConditionView, int),
    ParsingErrorView,
> {
    match spec_read_i32(buf, pos) {
        Err(e) => Err(e),
        Ok((id, p1)) => match spec_read_i32(buf, p1) {
            Err(e) => Err(e),
            Ok((range_start, p2)) => match spec_read_i32(buf, p2) {
                Err(e) => Err(e),
                Ok((range_end, p3)) => match spec_read_i32(buf, p3) {
                    Err(e) => Err(e),
                    Ok((eq_count, p4)) => match spec_read_bool(buf, p4) {
                        Err(e) => Err(e),
                        Ok((must_equal, p5)) => match spec_parse_i32_values(
                            buf,
                            p5,
                            eq_count as int,
                            Seq::empty(),
                        ) {
                            Err(e) => Err(e),
                            Ok((eq_values, p6)) => match spec_read_i32(buf, p6) {
                                Err(e) => Err(e),
                                Ok((mod_count, p7)) => match spec_read_bool(buf, p7) {
                                    Err(e) => Err(e),
                                    Ok((must_mod, p8)) => match spec_parse_i32_values(
                                        buf,
                                        p8,
                                        mod_count as int,
                                        Seq::empty(),
                                    ) {
                                        Err(e) => Err(e),
                                        Ok((mod_values, p9)) => Ok(
                                            (
                                                JumpParameterConditionView {
                                                    parameter_id: id as u32,
                                                    range_start,
                                                    range_end,
                                                    must_equal,
                                                    must_equal_values: eq_values,
                                                    must_mod,
                                                    must_mod_values: mod_values,
                                                },
                                                p9,
                                            ),
                                        ),
                                    },
                                },
                            },
                        },
                    },
                },
            },
        },
    }
}

/// Decodes jump-parameter-conditions.
pub struct JumpParameterConditionParser;

impl JumpParameterConditionParser {
    /// Decodes one condition at the cursor.
    pub fn parse(buf: &[u8], pos: &mut usize) -> (r: Result<JumpParameterCondition, ParsingError>)
        ensures
            match r {
                Ok(c) => spec_parse_condition(buf@, *old(pos) as int) == Ok::<
                    (JumpParameterConditionView, int),
                    ParsingErrorView,
                >((c@, *final(pos) as int)) && *final(pos) <= buf@.len(),
                Err(e) => spec_parse_condition(buf@, *old(pos) as int) == Err::<
                    (JumpParameterConditionView, int),
                    ParsingErrorView,
                >(e@),
            },
    {
        proof {
            reveal(spec_parse_condition);
        }
        let parameter_id = match PrimitiveParser::parse_i32(buf, pos) {
            Ok(v) => v as u32,
            Err(e) => {
                return Err(e);
            },
        };
        let range_start = match PrimitiveParser::parse_i32(buf, pos) {
            Ok(v) => v,
            Err(e) => {
                return Err(e);
            },
        };
        let range_end = match PrimitiveParser::parse_i32(buf, pos) {
            Ok(v) => v,
            Err(e) => {
                return Err(e);
            },
        };
        let eq_count = match PrimitiveParser::parse_i32(buf, pos) {
            Ok(v) => v,
            Err(e) => {
                return Err(e);
            },
        };
        let must_equal = match PrimitiveParser::parse_bool(buf, pos) {
            Ok(v) => v,
            Err(e) => {
                return Err(e);
            },
        };
        let must_equal_values = match parse_i32_values(buf, pos, eq_count) {
            Ok(v) => v,
            Err(e) => {
                return Err(e);
            },
        };
        let mod_count = match PrimitiveParser::parse_i32(buf, pos) {
            Ok(v) => v,
            Err(e) => {
                return Err(e);
            },
        };
        let must_mod = match PrimitiveParser::parse_bool(buf, pos) {
            Ok(v) => v,
            Err(e) => {
                return Err(e);
            },
        };
        let must_mod_values = match parse_i32_values(buf, pos, mod_count) {
            Ok(v) => v,
            Err(e) => {
                return Err(e);
            },
        };
        Ok(
            JumpParameterCondition {
                parameter_id,
                range_start,
                range_end,
                must_equal,
                must_equal_values,
                must_mod,
                must_mod_values,
            },
        )
    }
}

} // verus!

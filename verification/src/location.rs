//! The location decoder: the location's scalar fields, its parameter-change
//! list, its paired presentation texts and media, and its selection policy.

use vstd::prelude::*;

use crate::errors::{LocationError, ParsingError, ParsingErrorView};
use crate::formula::{spec_scan_formula, Formula};
use crate::markup::{spec_scan_markup, FormattedText, TextElementView};
use crate::parameter::{spec_parse_parameter_change, ParameterChangeParser};
use crate::primitive::{spec_read_bool, spec_read_byte, spec_read_i32, PrimitiveParser};
use crate::qstring::{spec_read_string, StringParser};
use crate::records::{spec_parse_media, MediaParser};
use crate::types::{
    changes_view, media_view, spec_location_type_of, texts_view, Location, LocationId,
    LocationSelectType, LocationSelectTypeView, LocationType, LocationView, MaxVisits, Media,
    MediaView, ParameterChange, ParameterChangeView,
};

verus! {

/// What reading a run of `n` parameter-change records at `pos` yields, with
/// `acc` the records already read.
pub open spec fn spec_parse_changes(
    buf: Seq<u8>,
    pos: int,
    n: int,
    acc: Seq<ParameterChangeView>,
) -> Result<(Seq<ParameterChangeView>, int), ParsingErrorView>
    decreases n,
{
    if n <= 0 {
        Ok((acc, pos))
    } else {
        match spec_parse_parameter_change(buf, pos) {
            Err(e) => Err(e),
            Ok((c, p)) => spec_parse_changes(buf, p, n - 1, acc.push(c)),
        }
    }
}

/// Reads a run of parameter-change records; a negative declared count means
/// none.
pub(crate) fn parse_changes(buf: &[u8], pos: &mut usize, count: i32) -> (r: Result<
    Vec<ParameterChange>,
    ParsingError,
>)
    requires
        *old(pos) <= buf@.len(),
    ensures
        match r {
            Ok(v) => spec_parse_changes(buf@, *old(pos) as int, count as int, Seq::empty())
                == Ok::<(Seq<ParameterChangeView>, int), ParsingErrorView>(
                (changes_view(v@), *final(pos) as int),
            ) && *final(pos) <= buf@.len(),
            Err(e) => spec_parse_changes(buf@, *old(pos) as int, count as int, Seq::empty())
                == Err::<(Seq<ParameterChangeView>, int), ParsingErrorView>(e@),
        },
{
    let mut changes: Vec<ParameterChange> = Vec::new();
    let mut iters: i32 = 0;
    proof {
        assert(changes_view(changes@) =~= Seq::<ParameterChangeView>::empty());
    }
    if count <= 0 {
        return Ok(changes);
    }
    while iters < count
        invariant
            0 <= iters <= count,
            *pos <= buf@.len(),
            spec_parse_changes(buf@, *old(pos) as int, count as int, Seq::empty())
                == spec_parse_changes(buf@, *pos as int, count - iters, changes_view(changes@)),
        decreases count - iters,
    {
        let c = match ParameterChangeParser::parse(buf, pos) {
            Ok(c) => c,
            Err(e) => {
                return Err(e);
            },
        };
        let ghost before = changes_view(changes@);
        let ghost cv = c@;
        changes.push(c);
        proof {
            assert(changes_view(changes@) =~= before.push(cv));
        }
        iters += 1;
    }
    Ok(changes)
}

/// What reading a run of `n` paired presentation texts and media references
/// at `pos` yields: one text and one media reference per slot, the text run
/// through the markup scanner.
pub open spec fn spec_parse_texts_media(
    buf: Seq<u8>,
    pos: int,
    n: int,
    tacc: Seq<Seq<TextElementView>>,
    macc: Seq<MediaView>,
) -> Result<(Seq<Seq<TextElementView>>, Seq<MediaView>, int), ParsingErrorView>
    decreases n,
{
    if n <= 0 {
        Ok((tacc, macc, pos))
    } else {
        match spec_read_string(buf, pos) {
            Err(e) => Err(e),
            Ok((text, p1)) => match spec_parse_media(buf, p1) {
                Err(e) => Err(e),
                Ok((m, p2)) => spec_parse_texts_media(
                    buf,
                    p2,
                    n - 1,
                    tacc.push(spec_scan_markup(text)),
                    macc.push(m),
                ),
            },
        }
    }
}

/// The scalar fields of one location record at `pos`: the day-advance flag,
/// two structural coordinate fields, the identifier, the visit limit and the
/// type tag.
pub open spec fn spec_parse_location_scalars(buf: Seq<u8>, pos: int) -> Result<
    ((i32, i32, i32, LocationType), int),
    ParsingErrorView,
> {
    match spec_read_i32(buf, pos) {
        Err(e) => Err(e),
        Ok((day_flag, p1)) => match spec_read_i32(buf, p1) {
            Err(e) => Err(e),
            Ok((_x, p2)) => match spec_read_i32(buf, p2) {
                Err(e) => Err(e),
                Ok((_y, p3)) => match spec_read_i32(buf, p3) {
                    Err(e) => Err(e),
                    Ok((id, p4)) => match spec_read_i32(buf, p4) {
                        Err(e) => Err(e),
                        Ok((mv, p5)) => match spec_read_byte(buf, p5) {
                            Err(e) => Err(e),
                            Ok((ty_byte, p6)) => match spec_location_type_of(ty_byte) {
                                Err(()) => Err(
                                    ParsingErrorView::InvalidLocation(
                                        LocationError::InvalidLocationType,
                                    ),
                                ),
                                Ok(ty) => Ok(((day_flag, id, mv, ty), p6)),
                            },
                        },
                    },
                },
            },
        },
    }
}

/// What reading one location record at `pos` yields: the scalar fields, the
/// parameter-change list, the paired presentation texts and media, and the
/// selection policy. The selection formula text is read in either policy but
/// scanned only when the policy asks for a formula.
#[verifier::opaque]
pub open spec fn spec_parse_location(buf: Seq<u8>, pos: int) -> Result<
    (LocationView, int),
    ParsingErrorView,
> {
    match spec_parse_location_scalars(buf, pos) {
        Err(e) => Err(e),
        Ok((s, p6)) => match spec_read_i32(buf, p6) {
            Err(e) => Err(e),
            Ok((changes_count, p7)) => match spec_parse_changes(
                buf,
                p7,
                changes_count as int,
                Seq::empty(),
            ) {
                Err(e) => Err(e),
                Ok((parameter_changes, p8)) => match spec_read_i32(buf, p8) {
                    Err(e) => Err(e),
                    Ok((texts_count, p9)) => match spec_parse_texts_media(
                        buf,
                        p9,
                        texts_count as int,
                        Seq::empty(),
                        Seq::empty(),
                    ) {
                        Err(e) => Err(e),
                        Ok((texts, media, p10)) => match spec_read_bool(buf, p10) {
                            Err(e) => Err(e),
                            Ok((by_formula, p11)) => match spec_read_string(buf, p11) {
                                Err(e) => Err(e),
                                Ok((formula_text, p12)) => {
                                    let select = if !by_formula {
                                        Ok(LocationSelectTypeView::ByOrder)
                                    } else {
                                        match spec_scan_formula(formula_text) {
                                            Err(fe) => Err(
                                                ParsingErrorView::InvalidFormula {
                                                    error: fe,
                                                    formula: formula_text,
                                                },
                                            ),
                                            Ok(f) => Ok(LocationSelectTypeView::ByFormula(f)),
                                        }
                                    };
                                    match select {
                                        Err(e) => Err(e),
                                        Ok(select_type) => Ok(
                                            (
                                                LocationView {
                                                    do_pass_day: s.0 > 0,
                                                    id: LocationId(s.1 as u32),
                                                    max_visits: if s.2 as u32 == 0 {
                                                        MaxVisits::Infinite
                                                    } else {
                                                        MaxVisits::Limit(s.2 as u32)
                                                    },
                                                    ty: s.3,
                                                    parameter_changes,
                                                    texts,
                                                    media,
                                                    select_type,
                                                },
                                                p12,
                                            ),
                                        ),
                                    }
                                },
                            },
                        },
                    },
                },
            },
        },
    }
}

/// Decodes location records.
pub struct LocationParser;

impl LocationParser {
    fn parse_texts_media(buf: &[u8], pos: &mut usize, count: i32) -> (r: Result<
        (Vec<FormattedText>, Vec<Media>),
        ParsingError,
    >)
        requires
            *old(pos) <= buf@.len(),
        ensures
            match r {
                Ok(v) => spec_parse_texts_media(
                    buf@,
                    *old(pos) as int,
                    count as int,
                    Seq::empty(),
                    Seq::empty(),
                ) == Ok::<(Seq<Seq<TextElementView>>, Seq<MediaView>, int), ParsingErrorView>(
                    (texts_view(v.0@), media_view(v.1@), *final(pos) as int),
                ) && *final(pos) <= buf@.len(),
                Err(e) => spec_parse_texts_media(
                    buf@,
                    *old(pos) as int,
                    count as int,
                    Seq::empty(),
                    Seq::empty(),
                ) == Err::<(Seq<Seq<TextElementView>>, Seq<MediaView>, int), ParsingErrorView>(e@),
            },
    {
        let mut texts: Vec<FormattedText> = Vec::new();
        let mut media: Vec<Media> = Vec::new();
        let mut iters: i32 = 0;
        proof {
            assert(texts_view(texts@) =~= Seq::<Seq<TextElementView>>::empty());
            assert(media_view(media@) =~= Seq::<MediaView>::empty());
        }
        if count <= 0 {
            return Ok((texts, media));
        }
        while iters < count
            invariant
                0 <= iters <= count,
                *pos <= buf@.len(),
                spec_parse_texts_media(
                    buf@,
                    *old(pos) as int,
                    count as int,
                    Seq::empty(),
                    Seq::empty(),
                ) == spec_parse_texts_media(
                    buf@,
                    *pos as int,
                    count - iters,
                    texts_view(texts@),
                    media_view(media@),
                ),
            decreases count - iters,
        {
            let raw = match StringParser::parse(buf, pos) {
                Ok(s) => s,
                Err(e) => {
                    return Err(e);
                },
            };
            let text = FormattedText::parse(raw.as_str());
            let m = match MediaParser::parse(buf, pos) {
                Ok(m) => m,
                Err(e) => {
                    return Err(e);
                },
            };
            let ghost tbefore = texts_view(texts@);
            let ghost mbefore = media_view(media@);
            let ghost tv = text@;
            let ghost mv = m@;
            texts.push(text);
            media.push(m);
            proof {
                assert(texts_view(texts@) =~= tbefore.push(tv));
                assert(media_view(media@) =~= mbefore.push(mv));
            }
            iters += 1;
        }
        Ok((texts, media))
    }

    /// Decodes one location record at the cursor.
    pub fn parse(buf: &[u8], pos: &mut usize) -> (r: Result<Location, ParsingError>)
        ensures
            match r {
                Ok(l) => spec_parse_location(buf@, *old(pos) as int) == Ok::<
                    (LocationView, int),
                    ParsingErrorView,
                >((l@, *final(pos) as int)) && *final(pos) <= buf@.len(),
                Err(e) => spec_parse_location(buf@, *old(pos) as int) == Err::<
                    (LocationView, int),
                    ParsingErrorView,
                >(e@),
            },
    {
        proof {
            reveal(spec_parse_location);
        }
        let do_pass_day = match PrimitiveParser::parse_i32(buf, pos) {
            Ok(v) => v > 0,
            Err(e) => {
                return Err(e);
            },
        };
        // The two coordinate fields are skipped.
        match PrimitiveParser::parse_i32(buf, pos) {
            Ok(_) => (),
            Err(e) => {
                return Err(e);
            },
        };
        match PrimitiveParser::parse_i32(buf, pos) {
            Ok(_) => (),
            Err(e) => {
                return Err(e);
            },
        };
        let id = match PrimitiveParser::parse_i32(buf, pos) {
            Ok(v) => LocationId(v as u32),
            Err(e) => {
                return Err(e);
            },
        };
        let max_visits = match PrimitiveParser::parse_i32(buf, pos) {
            Ok(v) => {
                if v as u32 == 0 {
                    MaxVisits::Infinite
                } else {
                    MaxVisits::Limit(v as u32)
                }
            },
            Err(e) => {
                return Err(e);
            },
        };
        let ty = match PrimitiveParser::parse_byte(buf, pos) {
            Ok(b) => match LocationType::try_from(b) {
                Ok(v) => v,
                Err(()) => {
                    return Err(ParsingError::InvalidLocation(LocationError::InvalidLocationType));
                },
            },
            Err(e) => {
                return Err(e);
            },
        };
        let changes_count = match PrimitiveParser::parse_i32(buf, pos) {
            Ok(v) => v,
            Err(e) => {
                return Err(e);
            },
        };
        let parameter_changes = match parse_changes(buf, pos, changes_count) {
            Ok(v) => v,
            Err(e) => {
                return Err(e);
            },
        };
        let texts_count = match PrimitiveParser::parse_i32(buf, pos) {
            Ok(v) => v,
            Err(e) => {
                return Err(e);
            },
        };
        let (texts, media) = match Self::parse_texts_media(buf, pos, texts_count) {
            Ok(v) => v,
            Err(e) => {
                return Err(e);
            },
        };
        let by_formula = match PrimitiveParser::parse_bool(buf, pos) {
            Ok(v) => v,
            Err(e) => {
                return Err(e);
            },
        };
        let formula_text = match StringParser::parse(buf, pos) {
            Ok(s) => s,
            Err(e) => {
                return Err(e);
            },
        };
        let select_type = if !by_formula {
            LocationSelectType::ByOrder
        } else {
            match Formula::parse(formula_text.as_str()) {
                Ok(f) => LocationSelectType::ByFormula(f),
                Err(err) => {
                    return Err(ParsingError::InvalidFormula { error: err, formula: formula_text });
                },
            }
        };
        Ok(
            Location {
                do_pass_day,
                id,
                max_visits,
                ty,
                parameter_changes,
                texts,
                media,
                select_type,
            },
        )
    }
}

} // verus!

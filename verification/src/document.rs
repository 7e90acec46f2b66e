//! The document decoder: the header, then the header-declared run of
//! parameters, the string-replacement block, the quest-info block, the
//! info-declared runs of locations and jumps, and the check that the buffer
//! is consumed exactly.

use vstd::prelude::*;

use crate::errors::{ParsingError, ParsingErrorView};
use crate::header::{spec_parse_header, HeaderParser};
use crate::jump::{spec_parse_jump, JumpParser};
use crate::location::{spec_parse_location, LocationParser};
use crate::parameter::{spec_parse_parameter, ParameterParser};
use crate::records::{
    spec_parse_info, spec_parse_string_replacements, InfoParser, StringReplacementsParser,
};
use crate::types::{
    jumps_view, locations_view, params_view, Jump, JumpView, Location, LocationView, Parameter,
    ParameterView, Quest, QuestView,
};

verus! {

/// What reading a run of `n` parameter records at `pos` yields, with `acc`
/// the records already read.
pub open spec fn spec_parse_params(
    buf: Seq<u8>,
    pos: int,
    n: int,
    acc: Seq<ParameterView>,
) -> Result<(Seq<ParameterView>, int), ParsingErrorView>
    decreases n,
{
    if n <= 0 {
        Ok((acc, pos))
    } else {
        match spec_parse_parameter(buf, pos) {
            Err(e) => Err(e),
            Ok((p, q)) => spec_parse_params(buf, q, n - 1, acc.push(p)),
        }
    }
}

/// What reading a run of `n` location records at `pos` yields.
pub open spec fn spec_parse_locations(
    buf: Seq<u8>,
    pos: int,
    n: int,
    acc: Seq<LocationView>,
) -> Result<(Seq<LocationView>, int), ParsingErrorView>
    decreases n,
{
    if n <= 0 {
        Ok((acc, pos))
    } else {
        match spec_parse_location(buf, pos) {
            Err(e) => Err(e),
            Ok((l, q)) => spec_parse_locations(buf, q, n - 1, acc.push(l)),
        }
    }
}

/// What reading a run of `n` jump records at `pos` yields.
pub open spec fn spec_parse_jumps(
    buf: Seq<u8>,
    pos: int,
    n: int,
    acc: Seq<JumpView>,
) -> Result<(Seq<JumpView>, int), ParsingErrorView>
    decreases n,
{
    if n <= 0 {
        Ok((acc, pos))
    } else {
        match spec_parse_jump(buf, pos) {
            Err(e) => Err(e),
            Ok((j, q)) => spec_parse_jumps(buf, q, n - 1, acc.push(j)),
        }
    }
}

/// What reading the document's records at `pos` yields: every declared count
/// is honored exactly, and the position after the last jump is returned.
pub open spec fn spec_parse_quest_records(buf: Seq<u8>, pos: int) -> Result<
    (QuestView, int),
    ParsingErrorView,
> {
    match spec_parse_header(buf, pos) {
        Err(e) => Err(e),
        Ok((header, p1)) => match spec_parse_params(
            buf,
            p1,
            header.parameters_count as int,
            Seq::empty(),
        ) {
            Err(e) => Err(e),
            Ok((parameters, p2)) => match spec_parse_string_replacements(buf, p2) {
                Err(e) => Err(e),
                Ok((string_replacements, p3)) => match spec_parse_info(buf, p3) {
                    Err(e) => Err(e),
                    Ok((info, p4)) => match spec_parse_locations(
                        buf,
                        p4,
                        info.locations_count as int,
                        Seq::empty(),
                    ) {
                        Err(e) => Err(e),
                        Ok((locations, p5)) => match spec_parse_jumps(
                            buf,
                            p5,
                            info.jumps_count as int,
                            Seq::empty(),
                        ) {
                            Err(e) => Err(e),
                            Ok((jumps, p6)) => Ok(
                                (
                                    QuestView {
                                        header,
                                        parameters,
                                        string_replacements,
                                        info,
                                        locations,
                                        jumps,
                                    },
                                    p6,
                                ),
                            ),
                        },
                    },
                },
            },
        },
    }
}

/// What decoding a whole document from `pos` yields: the records, and then
/// the buffer must be consumed exactly, else the file is rejected even though
/// every record parsed.
pub open spec fn spec_parse_quest_at(buf: Seq<u8>, pos: int) -> Result<
    QuestView,
    ParsingErrorView,
> {
    match spec_parse_quest_records(buf, pos) {
        Err(e) => Err(e),
        Ok((q, p)) => {
            if p == buf.len() {
                Ok(q)
            } else {
                Err(ParsingErrorView::ExpectedEnd)
            }
        },
    }
}

/// What decoding a whole document yields.
pub open spec fn spec_parse_quest(buf: Seq<u8>) -> Result<QuestView, ParsingErrorView> {
    spec_parse_quest_at(buf, 0)
}

/// Decodes whole documents.
pub struct QmmParser;

impl QmmParser {
    fn parse_params(buf: &[u8], pos: &mut usize, count: usize) -> (r: Result<
        Vec<Parameter>,
        ParsingError,
    >)
        requires
            *old(pos) <= buf@.len(),
        ensures
            match r {
                Ok(v) => spec_parse_params(buf@, *old(pos) as int, count as int, Seq::empty())
                    == Ok::<(Seq<ParameterView>, int), ParsingErrorView>(
                    (params_view(v@), *final(pos) as int),
                ) && *final(pos) <= buf@.len() && v@.len() == count,
                Err(e) => spec_parse_params(buf@, *old(pos) as int, count as int, Seq::empty())
                    == Err::<(Seq<ParameterView>, int), ParsingErrorView>(e@),
            },
    {
        let mut parameters: Vec<Parameter> = Vec::new();
        let mut iters: usize = 0;
        proof {
            assert(params_view(parameters@) =~= Seq::<ParameterView>::empty());
        }
        while iters < count
            invariant
                0 <= iters <= count,
                *pos <= buf@.len(),
                parameters@.len() == iters,
                spec_parse_params(buf@, *old(pos) as int, count as int, Seq::empty())
                    == spec_parse_params(
                    buf@,
                    *pos as int,
                    count - iters,
                    params_view(parameters@),
                ),
            decreases count - iters,
        {
            let p = match ParameterParser::parse(buf, pos) {
                Ok(p) => p,
                Err(e) => {
                    return Err(e);
                },
            };
            let ghost before = params_view(parameters@);
            let ghost pv = p@;
            parameters.push(p);
            proof {
                assert(params_view(parameters@) =~= before.push(pv));
            }
            iters += 1;
        }
        Ok(parameters)
    }

    fn parse_locations(buf: &[u8], pos: &mut usize, count: u32) -> (r: Result<
        Vec<Location>,
        ParsingError,
    >)
        requires
            *old(pos) <= buf@.len(),
        ensures
            match r {
                Ok(v) => spec_parse_locations(buf@, *old(pos) as int, count as int, Seq::empty())
                    == Ok::<(Seq<LocationView>, int), ParsingErrorView>(
                    (locations_view(v@), *final(pos) as int),
                ) && *final(pos) <= buf@.len() && v@.len() == count,
                Err(e) => spec_parse_locations(buf@, *old(pos) as int, count as int, Seq::empty())
                    == Err::<(Seq<LocationView>, int), ParsingErrorView>(e@),
            },
    {
        let mut locations: Vec<Location> = Vec::new();
        let mut iters: u32 = 0;
        proof {
            assert(locations_view(locations@) =~= Seq::<LocationView>::empty());
        }
        while iters < count
            invariant
                0 <= iters <= count,
                *pos <= buf@.len(),
                locations@.len() == iters,
                spec_parse_locations(buf@, *old(pos) as int, count as int, Seq::empty())
                    == spec_parse_locations(
                    buf@,
                    *pos as int,
                    count - iters,
                    locations_view(locations@),
                ),
            decreases count - iters,
        {
            let l = match LocationParser::parse(buf, pos) {
                Ok(l) => l,
                Err(e) => {
                    return Err(e);
                },
            };
            let ghost before = locations_view(locations@);
            let ghost lv = l@;
            locations.push(l);
            proof {
                assert(locations_view(locations@) =~= before.push(lv));
            }
            iters += 1;
        }
        Ok(locations)
    }

    fn parse_jumps(buf: &[u8], pos: &mut usize, count: u32) -> (r: Result<Vec<Jump>, ParsingError>)
        requires
            *old(pos) <= buf@.len(),
        ensures
            match r {
                Ok(v) => spec_parse_jumps(buf@, *old(pos) as int, count as int, Seq::empty())
                    == Ok::<(Seq<JumpView>, int), ParsingErrorView>(
                    (jumps_view(v@), *final(pos) as int),
                ) && *final(pos) <= buf@.len() && v@.len() == count,
                Err(e) => spec_parse_jumps(buf@, *old(pos) as int, count as int, Seq::empty())
                    == Err::<(Seq<JumpView>, int), ParsingErrorView>(e@),
            },
    {
        let mut jumps: Vec<Jump> = Vec::new();
        let mut iters: u32 = 0;
        proof {
            assert(jumps_view(jumps@) =~= Seq::<JumpView>::empty());
        }
        while iters < count
            invariant
                0 <= iters <= count,
                *pos <= buf@.len(),
                jumps@.len() == iters,
                spec_parse_jumps(buf@, *old(pos) as int, count as int, Seq::empty())
                    == spec_parse_jumps(buf@, *pos as int, count - iters, jumps_view(jumps@)),
            decreases count - iters,
        {
            let j = match JumpParser::parse(buf, pos) {
                Ok(j) => j,
                Err(e) => {
                    return Err(e);
                },
            };
            let ghost before = jumps_view(jumps@);
            let ghost jv = j@;
            jumps.push(j);
            proof {
                assert(jumps_view(jumps@) =~= before.push(jv));
            }
            iters += 1;
        }
        Ok(jumps)
    }

    /// Decodes one whole document at the cursor. On success every declared
    /// count is honored exactly: the parameter list is as long as the header
    /// declared, and the location and jump lists are as long as the info
    /// block declared.
    #[verifier::rlimit(100)]
    pub fn parse(buf: &[u8], pos: &mut usize) -> (r: Result<Quest, ParsingError>)
        ensures
            match r {
                Ok(q) => spec_parse_quest_at(buf@, *old(pos) as int) matches Ok(qv) && qv == q@
                    && q.parameters@.len() == q.header.parameters_count && q.locations@.len()
                    == q.info.locations_count && q.jumps@.len() == q.info.jumps_count
                    && *final(pos) == buf@.len(),
                Err(e) => spec_parse_quest_at(buf@, *old(pos) as int) matches Err(ev) && ev == e@,
            },
    {
        let header = match HeaderParser::parse(buf, pos) {
            Ok(h) => h,
            Err(e) => {
                return Err(e);
            },
        };
        let parameters = match Self::parse_params(buf, pos, header.parameters_count) {
            Ok(v) => v,
            Err(e) => {
                return Err(e);
            },
        };
        let string_replacements = match StringReplacementsParser::parse(buf, pos) {
            Ok(v) => v,
            Err(e) => {
                return Err(e);
            },
        };
        let info = match InfoParser::parse(buf, pos) {
            Ok(v) => v,
            Err(e) => {
                return Err(e);
            },
        };
        let locations = match Self::parse_locations(buf, pos, info.locations_count) {
            Ok(v) => v,
            Err(e) => {
                return Err(e);
            },
        };
        let jumps = match Self::parse_jumps(buf, pos, info.jumps_count) {
            Ok(v) => v,
            Err(e) => {
                return Err(e);
            },
        };
        if *pos != buf.len() {
            return Err(ParsingError::ExpectedEnd);
        }
        Ok(Quest { header, parameters, string_replacements, info, locations, jumps })
    }
}

/// Decodes one quest file. On success every declared count is honored
/// exactly and the buffer is consumed exactly.
pub fn parse_qmm(data: &[u8]) -> (r: Result<Quest, ParsingError>)
    ensures
        match r {
            Ok(q) => spec_parse_quest(data@) matches Ok(qv) && qv == q@ && q.parameters@.len()
                == q.header.parameters_count && q.locations@.len() == q.info.locations_count
                && q.jumps@.len() == q.info.jumps_count,
            Err(e) => spec_parse_quest(data@) matches Err(ev) && ev == e@,
        },
{
    let mut pos: usize = 0;
    QmmParser::parse(data, &mut pos)
}

/// A document the decoder accepts consumes its buffer exactly: the records
/// end precisely at the buffer's end.
pub proof fn lemma_quest_consumes_exactly(buf: Seq<u8>)
    requires
        spec_parse_quest(buf) is Ok,
    ensures
        spec_parse_quest_records(buf, 0) matches Ok(p) && p.1 == buf.len(),
{
}

} // verus!

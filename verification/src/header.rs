//! The header decoder: the file magic with its version-specific padding
//! probe, the tag bytes and bitmasks of the header, the sign-extended
//! relation-change field, and the declared parameter count.

use vstd::prelude::*;

use crate::errors::{HeaderError, ParsingError, ParsingErrorView};
use crate::primitive::{le_u32, spec_read_byte, spec_read_i32, PrimitiveParser};
use crate::types::{
    spec_completion_condition_of, spec_version_of, CompletionCondition, Header, JumpsLimit,
    PlanetType, PlayerStatus, Race, Version,
};

verus! {

/// The 12-byte padding block that may follow the magic; its presence is
/// probed and, when absent, the cursor is rewound.
pub open spec fn version_pad() -> Seq<u8> {
    Seq::new(12, |i: int| if i == 0 { 0x01u8 } else { 0u8 })
}

/// What reading the magic and probing the padding block at `pos` yields: the
/// version and the position after the magic, or after the padding when it is
/// present. The probe itself needs 12 readable bytes.
pub open spec fn spec_parse_version(buf: Seq<u8>, pos: int) -> Result<
    (Version, int),
    ParsingErrorView,
> {
    if pos + 4 > buf.len() {
        Err(ParsingErrorView::Incomplete)
    } else {
        match spec_version_of(buf[pos], buf[pos + 1], buf[pos + 2], buf[pos + 3]) {
            Err(()) => Err(ParsingErrorView::InvalidHeader(HeaderError::InvalidMagic)),
            Ok(version) => {
                if pos + 16 > buf.len() {
                    Err(ParsingErrorView::Incomplete)
                } else if buf.subrange(pos + 4, pos + 16) == version_pad() {
                    Ok((version, pos + 16))
                } else {
                    Ok((version, pos + 4))
                }
            },
        }
    }
}

/// The version probe consumes the padding block exactly when it is present:
/// after a known magic with 12 readable bytes behind it, the read ends 16
/// past its start when those bytes are the sentinel block, and 4 past its
/// start — just after the magic — for any other 12 bytes.
pub proof fn lemma_version_probe(buf: Seq<u8>, pos: int)
    requires
        0 <= pos,
        pos + 16 <= buf.len(),
        spec_version_of(buf[pos], buf[pos + 1], buf[pos + 2], buf[pos + 3]) is Ok,
    ensures
        spec_parse_version(buf, pos) matches Ok(r) && r.1 == (
        if buf.subrange(pos + 4, pos + 16) == version_pad() {
            pos + 16
        } else {
            pos + 4
        }),
{
}

/// The relation-change value with its sign flipped, wrapping at the one value
/// without a positive counterpart.
pub open spec fn flip_sign_i8(v: i8) -> i8 {
    if v == -128 {
        -128i8
    } else {
        (-(v as int)) as i8
    }
}

/// What reading the 4-byte relation-change field at `pos` yields: the low
/// byte's magnitude with the sign told by the trailing triple, which must be
/// all `0xFF` (negative) or all zero (positive).
pub open spec fn spec_parse_relation_change(buf: Seq<u8>, pos: int) -> Result<
    (i8, int),
    ParsingErrorView,
> {
    if pos + 4 > buf.len() {
        Err(ParsingErrorView::Incomplete)
    } else {
        let value = buf[pos] as i8;
        if buf[pos + 1] == 0xFF && buf[pos + 2] == 0xFF && buf[pos + 3] == 0xFF {
            Ok((flip_sign_i8(value), pos + 4))
        } else if buf[pos + 1] == 0 && buf[pos + 2] == 0 && buf[pos + 3] == 0 {
            Ok((value, pos + 4))
        } else {
            Err(ParsingErrorView::InvalidHeader(HeaderError::InvalidRelationChange))
        }
    }
}

/// What reading the default jump limit at `pos` yields: zero means no bound.
pub open spec fn spec_parse_jumps_limit(buf: Seq<u8>, pos: int) -> Result<
    (JumpsLimit, int),
    ParsingErrorView,
> {
    match spec_read_i32(buf, pos) {
        Err(e) => Err(e),
        Ok((v, p)) => {
            if v as u32 == 0 {
                Ok((JumpsLimit::Infinite, p))
            } else {
                Ok((JumpsLimit::Limit(v as u32), p))
            }
        },
    }
}

/// What reading the quest-giver race byte at `pos` yields.
pub open spec fn spec_parse_giver_race(buf: Seq<u8>, pos: int) -> Result<
    (Race, int),
    ParsingErrorView,
> {
    match spec_read_byte(buf, pos) {
        Err(e) => Err(e),
        Ok((b, p)) => {
            if Race::spec_valid_bits(b) {
                Ok((Race { bits: b }, p))
            } else {
                Err(ParsingErrorView::InvalidHeader(HeaderError::InvalidQuestGiverRace))
            }
        },
    }
}

/// What reading the planet-type byte at `pos` yields: the one sentinel byte
/// means uninhabited, anything else must be a race mask.
pub open spec fn spec_parse_planet_type(buf: Seq<u8>, pos: int) -> Result<
    (PlanetType, int),
    ParsingErrorView,
> {
    match spec_read_byte(buf, pos) {
        Err(e) => Err(e),
        Ok((b, p)) => {
            if b == 0x40 {
                Ok((PlanetType::Uninhabited, p))
            } else if Race::spec_valid_bits(b) {
                Ok((PlanetType::Populated(Race { bits: b }), p))
            } else {
                Err(ParsingErrorView::InvalidHeader(HeaderError::InvalidQuestPlanetType))
            }
        },
    }
}

/// What reading the whole header at `pos` yields. The four scalar fields
/// after the relation change are structural only and are skipped.
#[verifier::opaque]
pub open spec fn spec_parse_header(buf: Seq<u8>, pos: int) -> Result<
    (Header, int),
    ParsingErrorView,
> {
    match spec_parse_version(buf, pos) {
        Err(e) => Err(e),
        Ok((version, p1)) => match spec_parse_giver_race(buf, p1) {
            Err(e) => Err(e),
            Ok((giver_race, p2)) => match spec_read_byte(buf, p2) {
                Err(e) => Err(e),
                Ok((cc_byte, p3)) => match spec_completion_condition_of(cc_byte) {
                    Err(()) => Err(
                        ParsingErrorView::InvalidHeader(HeaderError::InvalidCompletionCondition),
                    ),
                    Ok(completion_condition) => match spec_parse_planet_type(buf, p3) {
                        Err(e) => Err(e),
                        Ok((quest_planet_type, p4)) => match spec_read_byte(buf, p4) {
                            Err(e) => Err(e),
                            Ok((ps_byte, p5)) => {
                                if !PlayerStatus::spec_valid_bits(ps_byte) {
                                    Err(
                                        ParsingErrorView::InvalidHeader(
                                            HeaderError::InvalidPlayerStatus,
                                        ),
                                    )
                                } else {
                                    let player_status = PlayerStatus { bits: ps_byte };
                                    match spec_read_byte(buf, p5) {
                                        Err(e) => Err(e),
                                        Ok((pr_byte, p6)) => {
                                            if !Race::spec_valid_bits(pr_byte) {
                                                Err(
                                                    ParsingErrorView::InvalidHeader(
                                                        HeaderError::InvalidPlayerRace,
                                                    ),
                                                )
                                            } else {
                                                let player_race = Race { bits: pr_byte };
                                                match spec_parse_relation_change(buf, p6) {
                                                    Err(e) => Err(e),
                                                    Ok((relation_change, p7)) => {
                                                        if p7 + 16 > buf.len() {
                                                            Err(ParsingErrorView::Incomplete)
                                                        } else {
                                                            let p8 = p7 + 16;
                                                            match spec_parse_jumps_limit(
                                                                buf,
                                                                p8,
                                                            ) {
                                                                Err(e) => Err(e),
                                                                Ok(
                                                                    (default_jumps_limit, p9),
                                                                ) => match spec_read_i32(buf, p9) {
                                                                    Err(e) => Err(e),
                                                                    Ok((diff, p10)) => match spec_read_i32(
                                                                        buf,
                                                                        p10,
                                                                    ) {
                                                                        Err(e) => Err(e),
                                                                        Ok((pc, p11)) => Ok(
                                                                            (
                                                                                Header {
                                                                                    version,
                                                                                    giver_race,
                                                                                    completion_condition,
                                                                                    quest_planet_type,
                                                                                    player_status,
                                                                                    player_race,
                                                                                    relation_change,
                                                                                    default_jumps_limit,
                                                                                    difficult: diff
                                                                                        as u32,
                                                                                    parameters_count: (
                                                                                    pc as usize),
                                                                                },
                                                                                p11,
                                                                            ),
                                                                        ),
                                                                    },
                                                                },
                                                            }
                                                        }
                                                    },
                                                }
                                            }
                                        },
                                    }
                                }
                            },
                        },
                    },
                },
            },
        },
    }
}

/// Decodes the file header.
pub struct HeaderParser;

impl HeaderParser {
    fn parse_version(buf: &[u8], pos: &mut usize) -> (r: Result<Version, ParsingError>)
        ensures
            match r {
                Ok(v) => spec_parse_version(buf@, *old(pos) as int) == Ok::<
                    (Version, int),
                    ParsingErrorView,
                >((v, *final(pos) as int)) && *final(pos) <= buf@.len(),
                Err(e) => spec_parse_version(buf@, *old(pos) as int) == Err::<
                    (Version, int),
                    ParsingErrorView,
                >(e@),
            },
    {
        let n = buf.len();
        let p = *pos;
        if p >= n || n - p < 4 {
            return Err(ParsingError::Incomplete);
        }
        let magic = [buf[p], buf[p + 1], buf[p + 2], buf[p + 3]];
        proof {
            assert(magic@[0] == buf@[p as int]);
            assert(magic@[1] == buf@[p as int + 1]);
            assert(magic@[2] == buf@[p as int + 2]);
            assert(magic@[3] == buf@[p as int + 3]);
        }
        let version = match Version::try_from(&magic) {
            Ok(v) => v,
            Err(()) => {
                return Err(ParsingError::InvalidHeader(HeaderError::InvalidMagic));
            },
        };
        if n - p < 16 {
            return Err(ParsingError::Incomplete);
        }
        let mut pad_matches = true;
        if buf[p + 4] != 0x01 {
            proof {
                let sub = buf@.subrange(p as int + 4, p as int + 16);
                assert(sub[0] == buf@[p as int + 4]);
                assert(version_pad()[0] == 0x01u8);
            }
            pad_matches = false;
        }
        let mut k: usize = 1;
        while k < 12
            invariant
                1 <= k <= 12,
                p + 16 <= n == buf@.len(),
                pad_matches ==> buf@[p as int + 4] == 0x01 && forall|j: int|
                    1 <= j < k ==> #[trigger] buf@[p as int + 4 + j] == 0u8,
                !pad_matches ==> buf@.subrange(p as int + 4, p as int + 16) != version_pad(),
            decreases 12 - k,
        {
            if buf[p + 4 + k] != 0 {
                proof {
                    let sub = buf@.subrange(p as int + 4, p as int + 16);
                    assert(sub[k as int] == buf@[p as int + 4 + k]);
                    assert(version_pad()[k as int] == 0u8);
                }
                pad_matches = false;
            }
            k += 1;
        }
        if pad_matches {
            proof {
                let sub = buf@.subrange(p as int + 4, p as int + 16);
                assert forall|j: int| 0 <= j < 12 implies sub[j] == version_pad()[j] by {
                    assert(sub[j] == buf@[p as int + 4 + j]);
                    if j == 0 {
                        assert(buf@[p as int + 4] == 0x01);
                    } else {
                        assert(buf@[p as int + 4 + j] == 0u8);
                    }
                }
                assert(sub =~= version_pad());
            }
            *pos = p + 16;
        } else {
            *pos = p + 4;
        }
        Ok(version)
    }

    fn parse_relation_change(buf: &[u8], pos: &mut usize) -> (r: Result<i8, ParsingError>)
        ensures
            match r {
                Ok(v) => spec_parse_relation_change(buf@, *old(pos) as int) == Ok::<
                    (i8, int),
                    ParsingErrorView,
                >((v, *final(pos) as int)) && *final(pos) <= buf@.len(),
                Err(e) => spec_parse_relation_change(buf@, *old(pos) as int) == Err::<
                    (i8, int),
                    ParsingErrorView,
                >(e@),
            },
    {
        let n = buf.len();
        let p = *pos;
        if p >= n || n - p < 4 {
            return Err(ParsingError::Incomplete);
        }
        let value = buf[p] as i8;
        if buf[p + 1] == 0xFF && buf[p + 2] == 0xFF && buf[p + 3] == 0xFF {
            *pos = p + 4;
            if value == i8::MIN {
                Ok(i8::MIN)
            } else {
                Ok(-value)
            }
        } else if buf[p + 1] == 0 && buf[p + 2] == 0 && buf[p + 3] == 0 {
            *pos = p + 4;
            Ok(value)
        } else {
            Err(ParsingError::InvalidHeader(HeaderError::InvalidRelationChange))
        }
    }

    fn parse_jumps_limit(buf: &[u8], pos: &mut usize) -> (r: Result<JumpsLimit, ParsingError>)
        ensures
            match r {
                Ok(v) => spec_parse_jumps_limit(buf@, *old(pos) as int) == Ok::<
                    (JumpsLimit, int),
                    ParsingErrorView,
                >((v, *final(pos) as int)) && *final(pos) <= buf@.len(),
                Err(e) => spec_parse_jumps_limit(buf@, *old(pos) as int) == Err::<
                    (JumpsLimit, int),
                    ParsingErrorView,
                >(e@),
            },
    {
        let value = match PrimitiveParser::parse_i32(buf, pos) {
            Ok(v) => v as u32,
            Err(e) => {
                return Err(e);
            },
        };
        if value == 0 {
            Ok(JumpsLimit::Infinite)
        } else {
            Ok(JumpsLimit::Limit(value))
        }
    }

    /// Decodes the header at the cursor.
    pub fn parse(buf: &[u8], pos: &mut usize) -> (r: Result<Header, ParsingError>)
        ensures
            match r {
                Ok(h) => spec_parse_header(buf@, *old(pos) as int) == Ok::<
                    (Header, int),
                    ParsingErrorView,
                >((h, *final(pos) as int)) && *final(pos) <= buf@.len(),
                Err(e) => spec_parse_header(buf@, *old(pos) as int) == Err::<
                    (Header, int),
                    ParsingErrorView,
                >(e@),
            },
    {
        proof {
            reveal(spec_parse_header);
        }
        let version = match Self::parse_version(buf, pos) {
            Ok(v) => v,
            Err(e) => {
                return Err(e);
            },
        };
        let giver_race = match PrimitiveParser::parse_byte(buf, pos) {
            Ok(b) => match Race::try_from(b) {
                Ok(race) => race,
                Err(()) => {
                    return Err(ParsingError::InvalidHeader(HeaderError::InvalidQuestGiverRace));
                },
            },
            Err(e) => {
                return Err(e);
            },
        };
        let completion_condition = match PrimitiveParser::parse_byte(buf, pos) {
            Ok(b) => match CompletionCondition::try_from(b) {
                Ok(cc) => cc,
                Err(()) => {
                    return Err(
                        ParsingError::InvalidHeader(HeaderError::InvalidCompletionCondition),
                    );
                },
            },
            Err(e) => {
                return Err(e);
            },
        };
        let quest_planet_type = match PrimitiveParser::parse_byte(buf, pos) {
            Ok(b) => {
                if b == 0x40 {
                    PlanetType::Uninhabited
                } else {
                    match Race::try_from(b) {
                        Ok(race) => PlanetType::Populated(race),
                        Err(()) => {
                            return Err(
                                ParsingError::InvalidHeader(HeaderError::InvalidQuestPlanetType),
                            );
                        },
                    }
                }
            },
            Err(e) => {
                return Err(e);
            },
        };
        let player_status = match PrimitiveParser::parse_byte(buf, pos) {
            Ok(b) => match PlayerStatus::try_from(b) {
                Ok(ps) => ps,
                Err(()) => {
                    return Err(ParsingError::InvalidHeader(HeaderError::InvalidPlayerStatus));
                },
            },
            Err(e) => {
                return Err(e);
            },
        };
        let player_race = match PrimitiveParser::parse_byte(buf, pos) {
            Ok(b) => match Race::try_from(b) {
                Ok(race) => race,
                Err(()) => {
                    return Err(ParsingError::InvalidHeader(HeaderError::InvalidPlayerRace));
                },
            },
            Err(e) => {
                return Err(e);
            },
        };
        let relation_change = match Self::parse_relation_change(buf, pos) {
            Ok(v) => v,
            Err(e) => {
                return Err(e);
            },
        };
        // The screen and grid sizes: four scalar fields that are skipped.
        let n = buf.len();
        if *pos >= n || n - *pos < 16 {
            return Err(ParsingError::Incomplete);
        }
        *pos = *pos + 16;
        let default_jumps_limit = match Self::parse_jumps_limit(buf, pos) {
            Ok(v) => v,
            Err(e) => {
                return Err(e);
            },
        };
        let difficult = match PrimitiveParser::parse_i32(buf, pos) {
            Ok(v) => v as u32,
            Err(e) => {
                return Err(e);
            },
        };
        let parameters_count = match PrimitiveParser::parse_i32(buf, pos) {
            Ok(v) => v as usize,
            Err(e) => {
                return Err(e);
            },
        };
        Ok(
            Header {
                version,
                giver_race,
                completion_condition,
                quest_planet_type,
                player_status,
                player_race,
                relation_change,
                default_jumps_limit,
                difficult,
                parameters_count,
            },
        )
    }
}

} // verus!

//! The string reader: the format's length-prefixed, optionally-absent text
//! fields, encoded as little-endian UTF-16. A 4-byte flag of zero means the
//! empty string with nothing further read; otherwise a 4-byte element count
//! is read and twice that many bytes are decoded.

use vstd::prelude::*;

use crate::errors::{ParsingError, ParsingErrorView};
use crate::primitive::{le_u32, spec_read_u32, PrimitiveParser};

verus! {

/// Is the unit a high (leading) surrogate?
pub open spec fn utf16_is_high(u: u16) -> bool {
    0xD800 <= u <= 0xDBFF
}

/// Is the unit a low (trailing) surrogate?
pub open spec fn utf16_is_low(u: u16) -> bool {
    0xDC00 <= u <= 0xDFFF
}

/// Do the units form a valid UTF-16 sequence, with every surrogate paired?
pub open spec fn utf16_valid(units: Seq<u16>) -> bool
    decreases units.len(),
{
    if units.len() == 0 {
        true
    } else if !utf16_is_high(units[0]) && !utf16_is_low(units[0]) {
        utf16_valid(units.drop_first())
    } else if utf16_is_high(units[0]) && units.len() >= 2 && utf16_is_low(units[1]) {
        utf16_valid(units.skip(2))
    } else {
        false
    }
}

/// The Unicode scalar a surrogate pair encodes.
pub open spec fn utf16_pair_scalar(hi: u16, lo: u16) -> u32
    recommends
        utf16_is_high(hi),
        utf16_is_low(lo),
{
    (0x10000 + (hi - 0xD800) * 0x400 + (lo - 0xDC00)) as u32
}

/// The characters a valid UTF-16 unit sequence encodes.
pub open spec fn utf16_chars(units: Seq<u16>) -> Seq<char>
    recommends
        utf16_valid(units),
    decreases units.len(),
{
    if units.len() == 0 {
        seq![]
    } else if !utf16_is_high(units[0]) && !utf16_is_low(units[0]) {
        seq![(units[0] as u32) as char] + utf16_chars(units.drop_first())
    } else if units.len() >= 2 && utf16_is_high(units[0]) && utf16_is_low(units[1]) {
        seq![utf16_pair_scalar(units[0], units[1]) as char] + utf16_chars(units.skip(2))
    } else {
        seq![]
    }
}

/// The 16-bit units held little-endian in an even number of bytes.
pub open spec fn le_units(b: Seq<u8>) -> Seq<u16>
    recommends
        b.len() % 2 == 0,
{
    Seq::new((b.len() / 2) as nat, |i: int| (b[2 * i] + b[2 * i + 1] * 0x100) as u16)
}

/// What reading one string field at `pos` yields: the decoded characters and
/// the position after the field, or the first failure.
#[verifier::opaque]
pub open spec fn spec_read_string(buf: Seq<u8>, pos: int) -> Result<
    (Seq<char>, int),
    ParsingErrorView,
> {
    match spec_read_u32(buf, pos) {
        Err(e) => Err(e),
        Ok((has_string, pos1)) => {
            if has_string == 0 {
                Ok((Seq::empty(), pos1))
            } else {
                match spec_read_u32(buf, pos1) {
                    Err(e) => Err(e),
                    Ok((count, pos2)) => {
                        if count == 0 {
                            Ok((Seq::empty(), pos2))
                        } else if pos2 + (count as int) * 2 > buf.len() {
                            Err(ParsingErrorView::Incomplete)
                        } else {
                            let units = le_units(buf.subrange(pos2, pos2 + (count as int) * 2));
                            if utf16_valid(units) {
                                Ok((utf16_chars(units), pos2 + (count as int) * 2))
                            } else {
                                Err(ParsingErrorView::InvalidString)
                            }
                        }
                    },
                }
            }
        },
    }
}

/// Relies on `String::from_utf16` from std: it decodes UTF-16 code units and
/// fails exactly when a surrogate is unpaired.
#[verifier::external_body]
fn from_utf16(units: &Vec<u16>) -> (r: Option<String>)
    ensures
        r is Some <==> utf16_valid(units@),
        match r {
            Some(s) => s@ == utf16_chars(units@),
            None => true,
        },
{
    match String::from_utf16(units) {
        Ok(s) => Some(s),
        Err(_) => None,
    }
}

/// Reads the format's string fields.
pub struct StringParser;

impl StringParser {
    /// Reads one string field at the cursor.
    pub fn parse(buf: &[u8], pos: &mut usize) -> (r: Result<String, ParsingError>)
        ensures
            match r {
                Ok(s) => spec_read_string(buf@, *old(pos) as int) == Ok::<
                    (Seq<char>, int),
                    ParsingErrorView,
                >((s@, *final(pos) as int)) && *final(pos) <= buf@.len(),
                Err(e) => spec_read_string(buf@, *old(pos) as int) == Err::<
                    (Seq<char>, int),
                    ParsingErrorView,
                >(e@),
            },
    {
        proof {
            reveal(spec_read_string);
        }
        let has_string = match PrimitiveParser::parse_u32(buf, pos) {
            Ok(v) => v,
            Err(e) => {
                return Err(e);
            },
        };
        if has_string == 0 {
            return Ok(String::new());
        }
        let count = match PrimitiveParser::parse_u32(buf, pos) {
            Ok(v) => v,
            Err(e) => {
                return Err(e);
            },
        };
        if count == 0 {
            return Ok(String::new());
        }
        let start = *pos;
        let n = buf.len();
        if count as usize > (n - start) / 2 {
            proof {
                assert(start + (count as int) * 2 > n);
            }
            return Err(ParsingError::Incomplete);
        }
        let byte_len: usize = (count as usize) * 2;
        proof {
            assert(start + (count as int) * 2 <= n);
        }
        let mut units: Vec<u16> = Vec::new();
        let mut i: usize = 0;
        let ghost gunits = le_units(buf@.subrange(start as int, start as int + (count as int) * 2));
        while i < count as usize
            invariant
                0 <= i <= count as usize,
                n == buf@.len(),
                start + (count as int) * 2 <= n,
                units@.len() == i,
                forall|j: int| 0 <= j < i ==> units@[j] == gunits[j],
                gunits == le_units(buf@.subrange(start as int, start as int + (count as int) * 2)),
                gunits.len() == count as int,
            decreases count as usize - i,
        {
            proof {
                assert(2 * (i as int) + 1 < (count as int) * 2);
                assert(start as int + 2 * (i as int) + 1 < buf@.len());
            }
            let b0 = buf[start + 2 * i];
            let b1 = buf[start + 2 * i + 1];
            let u: u16 = b0 as u16 + (b1 as u16) * 0x100;
            proof {
                let ii = i as int;
                let s = buf@.subrange(start as int, start as int + (count as int) * 2);
                assert(s[2 * ii] == buf@[start as int + 2 * ii]);
                assert(s[2 * ii + 1] == buf@[start as int + 2 * ii + 1]);
                assert(gunits[ii] == (s[2 * ii] + s[2 * ii + 1] * 0x100) as u16);
                assert(gunits[ii] == u);
            }
            units.push(u);
            i = i + 1;
        }
        proof {
            assert(units@ =~= gunits);
        }
        *pos = start + byte_len;
        match from_utf16(&units) {
            Some(s) => Ok(s),
            None => Err(ParsingError::InvalidString),
        }
    }
}

} // verus!

//! The primitive reader: fixed-width little-endian reads over an immutable
//! byte buffer with a shared position cursor. A read that finds its bytes
//! consumes exactly its width before validating them, so a boolean byte that
//! is neither 0 nor 1 is rejected with the cursor already advanced past it;
//! a read that wants more bytes than remain fails with `Incomplete` and
//! leaves the cursor alone.

use vstd::prelude::*;

use crate::errors::{ParsingError, ParsingErrorView};

verus! {

/// The little-endian value of four bytes.
pub open spec fn le_u32(b0: u8, b1: u8, b2: u8, b3: u8) -> u32 {
    (b0 + b1 * 0x100 + b2 * 0x1_0000 + b3 * 0x100_0000) as u32
}

/// The little-endian value of eight bytes.
pub open spec fn le_u64(b: Seq<u8>) -> u64
    recommends
        b.len() == 8,
{
    (b[0] + b[1] * 0x100 + b[2] * 0x1_0000 + b[3] * 0x100_0000 + b[4] * 0x1_0000_0000u64 + b[5]
        * 0x100_0000_0000u64 + b[6] * 0x1_0000_0000_0000u64 + b[7]
        * 0x100_0000_0000_0000u64) as u64
}

/// What reading one byte at `pos` yields.
pub open spec fn spec_read_byte(buf: Seq<u8>, pos: int) -> Result<(u8, int), ParsingErrorView> {
    if pos + 1 <= buf.len() {
        Ok((buf[pos], pos + 1))
    } else {
        Err(ParsingErrorView::Incomplete)
    }
}

/// What reading a little-endian 32-bit unsigned integer at `pos` yields.
pub open spec fn spec_read_u32(buf: Seq<u8>, pos: int) -> Result<(u32, int), ParsingErrorView> {
    if pos + 4 <= buf.len() {
        Ok((le_u32(buf[pos], buf[pos + 1], buf[pos + 2], buf[pos + 3]), pos + 4))
    } else {
        Err(ParsingErrorView::Incomplete)
    }
}

/// What reading a little-endian 32-bit signed integer at `pos` yields.
pub open spec fn spec_read_i32(buf: Seq<u8>, pos: int) -> Result<(i32, int), ParsingErrorView> {
    if pos + 4 <= buf.len() {
        Ok((le_u32(buf[pos], buf[pos + 1], buf[pos + 2], buf[pos + 3]) as i32, pos + 4))
    } else {
        Err(ParsingErrorView::Incomplete)
    }
}

/// What reading one boolean byte at `pos` yields: 0 is false, 1 is true, and
/// any other byte is `InvalidBool`.
pub open spec fn spec_read_bool(buf: Seq<u8>, pos: int) -> Result<(bool, int), ParsingErrorView> {
    if pos + 1 <= buf.len() {
        if buf[pos] == 0u8 {
            Ok((false, pos + 1))
        } else if buf[pos] == 1u8 {
            Ok((true, pos + 1))
        } else {
            Err(ParsingErrorView::InvalidBool)
        }
    } else {
        Err(ParsingErrorView::Incomplete)
    }
}

/// What reading the format's 8-byte floating-point field at `pos` yields,
/// as the raw little-endian bit pattern.
pub open spec fn spec_read_f64_bits(buf: Seq<u8>, pos: int) -> Result<
    (u64, int),
    ParsingErrorView,
> {
    if pos + 8 <= buf.len() {
        Ok((le_u64(buf.subrange(pos, pos + 8)), pos + 8))
    } else {
        Err(ParsingErrorView::Incomplete)
    }
}

/// Reads fixed-width scalars from the byte buffer.
pub struct PrimitiveParser;

impl PrimitiveParser {
    /// Reads one byte.
    pub fn parse_byte(buf: &[u8], pos: &mut usize) -> (r: Result<u8, ParsingError>)
        ensures
            match r {
                Ok(v) => spec_read_byte(buf@, *old(pos) as int) == Ok::<(u8, int), ParsingErrorView>(
                    (v, *final(pos) as int),
                ) && *final(pos) <= buf@.len(),
                Err(e) => spec_read_byte(buf@, *old(pos) as int) == Err::<
                    (u8, int),
                    ParsingErrorView,
                >(e@) && *final(pos) == *old(pos),
            },
    {
        let n = buf.len();
        if *pos >= n {
            return Err(ParsingError::Incomplete);
        }
        let b = buf[*pos];
        *pos = *pos + 1;
        Ok(b)
    }

    /// Reads a little-endian 32-bit unsigned integer.
    pub fn parse_u32(buf: &[u8], pos: &mut usize) -> (r: Result<u32, ParsingError>)
        ensures
            match r {
                Ok(v) => spec_read_u32(buf@, *old(pos) as int) == Ok::<
                    (u32, int),
                    ParsingErrorView,
                >((v, *final(pos) as int)) && *final(pos) <= buf@.len(),
                Err(e) => spec_read_u32(buf@, *old(pos) as int) == Err::<
                    (u32, int),
                    ParsingErrorView,
                >(e@) && *final(pos) == *old(pos),
            },
    {
        let n = buf.len();
        if *pos >= n || n - *pos < 4 {
            return Err(ParsingError::Incomplete);
        }
        let b0 = buf[*pos];
        let b1 = buf[*pos + 1];
        let b2 = buf[*pos + 2];
        let b3 = buf[*pos + 3];
        let v: u32 = b0 as u32 + (b1 as u32) * 0x100 + (b2 as u32) * 0x1_0000 + (b3 as u32)
            * 0x100_0000;
        *pos = *pos + 4;
        Ok(v)
    }

    /// Reads a little-endian 32-bit signed integer.
    pub fn parse_i32(buf: &[u8], pos: &mut usize) -> (r: Result<i32, ParsingError>)
        ensures
            match r {
                Ok(v) => spec_read_i32(buf@, *old(pos) as int) == Ok::<
                    (i32, int),
                    ParsingErrorView,
                >((v, *final(pos) as int)) && *final(pos) <= buf@.len(),
                Err(e) => spec_read_i32(buf@, *old(pos) as int) == Err::<
                    (i32, int),
                    ParsingErrorView,
                >(e@) && *final(pos) == *old(pos),
            },
    {
        let n = buf.len();
        if *pos >= n || n - *pos < 4 {
            return Err(ParsingError::Incomplete);
        }
        let b0 = buf[*pos];
        let b1 = buf[*pos + 1];
        let b2 = buf[*pos + 2];
        let b3 = buf[*pos + 3];
        let v: u32 = b0 as u32 + (b1 as u32) * 0x100 + (b2 as u32) * 0x1_0000 + (b3 as u32)
            * 0x100_0000;
        *pos = *pos + 4;
        Ok(v as i32)
    }

    /// Reads one boolean byte; a byte that is neither 0 nor 1 is `InvalidBool`.
    pub fn parse_bool(buf: &[u8], pos: &mut usize) -> (r: Result<bool, ParsingError>)
        ensures
            match r {
                Ok(v) => spec_read_bool(buf@, *old(pos) as int) == Ok::<
                    (bool, int),
                    ParsingErrorView,
                >((v, *final(pos) as int)) && *final(pos) <= buf@.len(),
                Err(e) => spec_read_bool(buf@, *old(pos) as int) == Err::<
                    (bool, int),
                    ParsingErrorView,
                >(e@) && (e@ == ParsingErrorView::InvalidBool ==> *final(pos) == *old(pos) + 1
                    && *final(pos) <= buf@.len()) && (e@ == ParsingErrorView::Incomplete
                    ==> *final(pos) == *old(pos)),
            },
    {
        let n = buf.len();
        if *pos >= n {
            return Err(ParsingError::Incomplete);
        }
        let b = buf[*pos];
        *pos = *pos + 1;
        match b {
            0x00 => Ok(false),
            0x01 => Ok(true),
            _ => Err(ParsingError::InvalidBool),
        }
    }

    /// Reads the format's 8-byte little-endian floating-point field and
    /// returns its raw bit pattern; the decoder never computes with it.
    pub fn parse_f64_bits(buf: &[u8], pos: &mut usize) -> (r: Result<u64, ParsingError>)
        ensures
            match r {
                Ok(v) => spec_read_f64_bits(buf@, *old(pos) as int) == Ok::<
                    (u64, int),
                    ParsingErrorView,
                >((v, *final(pos) as int)) && *final(pos) <= buf@.len(),
                Err(e) => spec_read_f64_bits(buf@, *old(pos) as int) == Err::<
                    (u64, int),
                    ParsingErrorView,
                >(e@) && *final(pos) == *old(pos),
            },
    {
        let n = buf.len();
        if *pos >= n || n - *pos < 8 {
            return Err(ParsingError::Incomplete);
        }
        let p = *pos;
        let v: u64 = buf[p] as u64 + (buf[p + 1] as u64) * 0x100 + (buf[p + 2] as u64) * 0x1_0000
            + (buf[p + 3] as u64) * 0x100_0000 + (buf[p + 4] as u64) * 0x1_0000_0000 + (buf[p
            + 5] as u64) * 0x100_0000_0000 + (buf[p + 6] as u64) * 0x1_0000_0000_0000 + (buf[p
            + 7] as u64) * 0x100_0000_0000_0000;
        proof {
            let q = p as int;
            let s = buf@.subrange(q, q + 8);
            assert(s[0] == buf@[q] && s[1] == buf@[q + 1] && s[2] == buf@[q + 2] && s[3] == buf@[q
                + 3] && s[4] == buf@[q + 4] && s[5] == buf@[q + 5] && s[6] == buf@[q + 6] && s[7]
                == buf@[q + 7]);
        }
        *pos = *pos + 8;
        Ok(v)
    }
}

} // verus!

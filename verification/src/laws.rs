//! The decoder's structural laws: a buffer the decoder accepts is consumed
//! exactly, appending any byte to it is rejected as trailing data, and
//! truncating it anywhere is rejected as incomplete.
//!
//! The proofs rest on two facts shown for every reader: a successful read
//! depends only on the bytes below its end position, and cutting a buffer
//! below that end makes the read fail for want of bytes.

use vstd::prelude::*;

use crate::document::{
    spec_parse_jumps, spec_parse_locations, spec_parse_params, spec_parse_quest,
    spec_parse_quest_records,
};
use crate::errors::ParsingErrorView;
use crate::header::{
    spec_parse_header, spec_parse_jumps_limit, spec_parse_relation_change, spec_parse_version,
    version_pad,
};
use crate::primitive::{
    spec_read_bool, spec_read_byte, spec_read_f64_bits, spec_read_i32, spec_read_u32,
};
use crate::qstring::spec_read_string;
use crate::jump::{spec_parse_conditions, spec_parse_jump, spec_parse_jump_scalars};
use crate::location::{
    spec_parse_changes, spec_parse_location, spec_parse_location_scalars, spec_parse_texts_media,
};
use crate::markup::{spec_scan_markup, TextElementView};
use crate::parameter::{
    spec_parse_parameter, spec_parse_parameter_change, spec_parse_parameter_scalars,
    spec_parse_range_line, spec_parse_range_lines,
};
use crate::records::{
    spec_parse_condition, spec_parse_i32_values, spec_parse_info, spec_parse_media,
    spec_parse_string_replacements,
};
use crate::types::{
    CriticalValue, FormattedRangeLineView, Header, InfoView, JumpParameterConditionView,
    JumpsLimit, JumpView, LocationType, LocationView, MediaView, ParameterChangeView,
    ParameterType, ParameterView, QuestView, StringReplacementsView, Version,
};

verus! {

/// The end position of a successful read.
pub open spec fn rd_end<T>(r: Result<(T, int), ParsingErrorView>) -> int {
    r->Ok_0.1
}

/// Do the two buffers agree below `w`, which both can hold?
pub open spec fn agree_to(buf1: Seq<u8>, buf2: Seq<u8>, w: int) -> bool {
    &&& w <= buf1.len()
    &&& w <= buf2.len()
    &&& forall|i: int| 0 <= i < w ==> buf1[i] == #[trigger] buf2[i]
}

proof fn lemma_read_byte_agree(buf1: Seq<u8>, buf2: Seq<u8>, pos: int)
    requires
        0 <= pos,
        spec_read_byte(buf1, pos) is Ok,
        agree_to(buf1, buf2, rd_end(spec_read_byte(buf1, pos))),
    ensures
        spec_read_byte(buf2, pos) == spec_read_byte(buf1, pos),
{
}

proof fn lemma_read_byte_trunc(buf: Seq<u8>, pos: int, k: int)
    requires
        0 <= pos <= k,
        spec_read_byte(buf, pos) is Ok,
        k < rd_end(spec_read_byte(buf, pos)),
    ensures
        spec_read_byte(buf.take(k), pos) == Err::<(u8, int), ParsingErrorView>(
            ParsingErrorView::Incomplete,
        ),
{
}

proof fn lemma_read_u32_agree(buf1: Seq<u8>, buf2: Seq<u8>, pos: int)
    requires
        0 <= pos,
        spec_read_u32(buf1, pos) is Ok,
        agree_to(buf1, buf2, rd_end(spec_read_u32(buf1, pos))),
    ensures
        spec_read_u32(buf2, pos) == spec_read_u32(buf1, pos),
{
}

proof fn lemma_read_u32_trunc(buf: Seq<u8>, pos: int, k: int)
    requires
        0 <= pos <= k,
        spec_read_u32(buf, pos) is Ok,
        k < rd_end(spec_read_u32(buf, pos)),
    ensures
        spec_read_u32(buf.take(k), pos) == Err::<(u32, int), ParsingErrorView>(
            ParsingErrorView::Incomplete,
        ),
{
}

proof fn lemma_read_i32_agree(buf1: Seq<u8>, buf2: Seq<u8>, pos: int)
    requires
        0 <= pos,
        spec_read_i32(buf1, pos) is Ok,
        agree_to(buf1, buf2, rd_end(spec_read_i32(buf1, pos))),
    ensures
        spec_read_i32(buf2, pos) == spec_read_i32(buf1, pos),
{
}

proof fn lemma_read_i32_trunc(buf: Seq<u8>, pos: int, k: int)
    requires
        0 <= pos <= k,
        spec_read_i32(buf, pos) is Ok,
        k < rd_end(spec_read_i32(buf, pos)),
    ensures
        spec_read_i32(buf.take(k), pos) == Err::<(i32, int), ParsingErrorView>(
            ParsingErrorView::Incomplete,
        ),
{
}

proof fn lemma_read_bool_agree(buf1: Seq<u8>, buf2: Seq<u8>, pos: int)
    requires
        0 <= pos,
        spec_read_bool(buf1, pos) is Ok,
        agree_to(buf1, buf2, rd_end(spec_read_bool(buf1, pos))),
    ensures
        spec_read_bool(buf2, pos) == spec_read_bool(buf1, pos),
{
}

proof fn lemma_read_bool_trunc(buf: Seq<u8>, pos: int, k: int)
    requires
        0 <= pos <= k,
        spec_read_bool(buf, pos) is Ok,
        k < rd_end(spec_read_bool(buf, pos)),
    ensures
        spec_read_bool(buf.take(k), pos) == Err::<(bool, int), ParsingErrorView>(
            ParsingErrorView::Incomplete,
        ),
{
}

proof fn lemma_read_f64_bits_agree(buf1: Seq<u8>, buf2: Seq<u8>, pos: int)
    requires
        0 <= pos,
        spec_read_f64_bits(buf1, pos) is Ok,
        agree_to(buf1, buf2, rd_end(spec_read_f64_bits(buf1, pos))),
    ensures
        spec_read_f64_bits(buf2, pos) == spec_read_f64_bits(buf1, pos),
{
    assert(buf2.subrange(pos, pos + 8) =~= buf1.subrange(pos, pos + 8));
}

proof fn lemma_read_f64_bits_trunc(buf: Seq<u8>, pos: int, k: int)
    requires
        0 <= pos <= k,
        spec_read_f64_bits(buf, pos) is Ok,
        k < rd_end(spec_read_f64_bits(buf, pos)),
    ensures
        spec_read_f64_bits(buf.take(k), pos) == Err::<(u64, int), ParsingErrorView>(
            ParsingErrorView::Incomplete,
        ),
{
}

proof fn lemma_read_string_agree(buf1: Seq<u8>, buf2: Seq<u8>, pos: int)
    requires
        0 <= pos,
        spec_read_string(buf1, pos) is Ok,
        agree_to(buf1, buf2, rd_end(spec_read_string(buf1, pos))),
    ensures
        spec_read_string(buf2, pos) == spec_read_string(buf1, pos),
{
    reveal(spec_read_string);
    let p = rd_end(spec_read_string(buf1, pos));
    lemma_read_u32_agree(buf1, buf2, pos);
    let has = spec_read_u32(buf1, pos)->Ok_0.0;
    if has != 0 {
        lemma_read_u32_agree(buf1, buf2, pos + 4);
        let count = spec_read_u32(buf1, pos + 4)->Ok_0.0 as int;
        if count != 0 {
            assert(buf2.subrange(pos + 8, pos + 8 + count * 2) =~= buf1.subrange(
                pos + 8,
                pos + 8 + count * 2,
            ));
        }
    }
}

proof fn lemma_read_string_trunc(buf: Seq<u8>, pos: int, k: int)
    requires
        0 <= pos <= k,
        spec_read_string(buf, pos) is Ok,
        k < rd_end(spec_read_string(buf, pos)),
    ensures
        spec_read_string(buf.take(k), pos) == Err::<(Seq<char>, int), ParsingErrorView>(
            ParsingErrorView::Incomplete,
        ),
{
    reveal(spec_read_string);
    let cut = buf.take(k);
    if pos + 4 <= k {
        lemma_read_u32_agree(buf, cut, pos);
        let has = spec_read_u32(buf, pos)->Ok_0.0;
        if has != 0 {
            if pos + 8 <= k {
                lemma_read_u32_agree(buf, cut, pos + 4);
            }
        }
    }
}

proof fn lemma_read_string_bounds(buf: Seq<u8>, pos: int)
    requires
        0 <= pos,
        spec_read_string(buf, pos) is Ok,
    ensures
        pos + 4 <= rd_end(spec_read_string(buf, pos)) <= buf.len(),
{
    reveal(spec_read_string);
}

proof fn lemma_media_bounds(buf: Seq<u8>, pos: int)
    requires
        0 <= pos,
        spec_parse_media(buf, pos) is Ok,
    ensures
        pos <= rd_end(spec_parse_media(buf, pos)) <= buf.len(),
{
    reveal(spec_parse_media);
    let p1 = rd_end(spec_read_string(buf, pos));
    let p2 = rd_end(spec_read_string(buf, p1));
    lemma_read_string_bounds(buf, pos);
    lemma_read_string_bounds(buf, p1);
    lemma_read_string_bounds(buf, p2);
}

proof fn lemma_version_agree(buf1: Seq<u8>, buf2: Seq<u8>, pos: int)
    requires
        0 <= pos,
        spec_parse_version(buf1, pos) is Ok,
        agree_to(buf1, buf2, pos + 16),
    ensures
        spec_parse_version(buf2, pos) == spec_parse_version(buf1, pos),
{
    if buf1.subrange(pos + 4, pos + 16) == version_pad() {
        assert(buf2.subrange(pos + 4, pos + 16) =~= buf1.subrange(pos + 4, pos + 16));
    } else {
        assert(buf2.subrange(pos + 4, pos + 16) =~= buf1.subrange(pos + 4, pos + 16));
    }
}

proof fn lemma_version_trunc(buf: Seq<u8>, pos: int, k: int)
    requires
        0 <= pos <= k,
        spec_parse_version(buf, pos) is Ok,
        k < pos + 16,
    ensures
        spec_parse_version(buf.take(k), pos) == Err::<(Version, int), ParsingErrorView>(
            ParsingErrorView::Incomplete,
        ),
{
}

proof fn lemma_relation_change_agree(buf1: Seq<u8>, buf2: Seq<u8>, pos: int)
    requires
        0 <= pos,
        spec_parse_relation_change(buf1, pos) is Ok,
        agree_to(buf1, buf2, rd_end(spec_parse_relation_change(buf1, pos))),
    ensures
        spec_parse_relation_change(buf2, pos) == spec_parse_relation_change(buf1, pos),
{
}

proof fn lemma_relation_change_trunc(buf: Seq<u8>, pos: int, k: int)
    requires
        0 <= pos <= k,
        spec_parse_relation_change(buf, pos) is Ok,
        k < rd_end(spec_parse_relation_change(buf, pos)),
    ensures
        spec_parse_relation_change(buf.take(k), pos) == Err::<(i8, int), ParsingErrorView>(
            ParsingErrorView::Incomplete,
        ),
{
}

proof fn lemma_jumps_limit_agree(buf1: Seq<u8>, buf2: Seq<u8>, pos: int)
    requires
        0 <= pos,
        spec_parse_jumps_limit(buf1, pos) is Ok,
        agree_to(buf1, buf2, rd_end(spec_parse_jumps_limit(buf1, pos))),
    ensures
        spec_parse_jumps_limit(buf2, pos) == spec_parse_jumps_limit(buf1, pos),
{
    lemma_read_i32_agree(buf1, buf2, pos);
}

proof fn lemma_jumps_limit_trunc(buf: Seq<u8>, pos: int, k: int)
    requires
        0 <= pos <= k,
        spec_parse_jumps_limit(buf, pos) is Ok,
        k < rd_end(spec_parse_jumps_limit(buf, pos)),
    ensures
        spec_parse_jumps_limit(buf.take(k), pos) == Err::<(JumpsLimit, int), ParsingErrorView>(
            ParsingErrorView::Incomplete,
        ),
{
    lemma_read_i32_trunc(buf, pos, k);
}

proof fn lemma_header_agree(buf1: Seq<u8>, buf2: Seq<u8>, pos: int)
    requires
        0 <= pos,
        spec_parse_header(buf1, pos) is Ok,
        agree_to(buf1, buf2, rd_end(spec_parse_header(buf1, pos))),
    ensures
        spec_parse_header(buf2, pos) == spec_parse_header(buf1, pos),
{
    reveal(spec_parse_header);
    let p1 = rd_end(spec_parse_version(buf1, pos));
    lemma_version_agree(buf1, buf2, pos);
    lemma_read_byte_agree(buf1, buf2, p1);
    lemma_read_byte_agree(buf1, buf2, p1 + 1);
    lemma_read_byte_agree(buf1, buf2, p1 + 2);
    lemma_read_byte_agree(buf1, buf2, p1 + 3);
    lemma_read_byte_agree(buf1, buf2, p1 + 4);
    lemma_relation_change_agree(buf1, buf2, p1 + 5);
    lemma_jumps_limit_agree(buf1, buf2, p1 + 25);
    lemma_read_i32_agree(buf1, buf2, p1 + 29);
    lemma_read_i32_agree(buf1, buf2, p1 + 33);
}

proof fn lemma_header_trunc(buf: Seq<u8>, pos: int, k: int)
    requires
        0 <= pos <= k,
        spec_parse_header(buf, pos) is Ok,
        k < rd_end(spec_parse_header(buf, pos)),
    ensures
        spec_parse_header(buf.take(k), pos) == Err::<(Header, int), ParsingErrorView>(
            ParsingErrorView::Incomplete,
        ),
{
    reveal(spec_parse_header);
    let cut = buf.take(k);
    let p1 = rd_end(spec_parse_version(buf, pos));
    if k < pos + 16 {
        lemma_version_trunc(buf, pos, k);
    } else {
        lemma_version_agree(buf, cut, pos);
        if k < p1 + 5 {
            if k < p1 + 1 {
                lemma_read_byte_trunc(buf, p1, k);
            } else {
                lemma_read_byte_agree(buf, cut, p1);
                if k < p1 + 2 {
                    lemma_read_byte_trunc(buf, p1 + 1, k);
                } else {
                    lemma_read_byte_agree(buf, cut, p1 + 1);
                    if k < p1 + 3 {
                        lemma_read_byte_trunc(buf, p1 + 2, k);
                    } else {
                        lemma_read_byte_agree(buf, cut, p1 + 2);
                        if k < p1 + 4 {
                            lemma_read_byte_trunc(buf, p1 + 3, k);
                        } else {
                            lemma_read_byte_agree(buf, cut, p1 + 3);
                            lemma_read_byte_trunc(buf, p1 + 4, k);
                        }
                    }
                }
            }
        } else {
            lemma_read_byte_agree(buf, cut, p1);
            lemma_read_byte_agree(buf, cut, p1 + 1);
            lemma_read_byte_agree(buf, cut, p1 + 2);
            lemma_read_byte_agree(buf, cut, p1 + 3);
            lemma_read_byte_agree(buf, cut, p1 + 4);
            if k < p1 + 9 {
                lemma_relation_change_trunc(buf, p1 + 5, k);
            } else {
                lemma_relation_change_agree(buf, cut, p1 + 5);
                if k < p1 + 25 {
                } else {
                    if k < p1 + 29 {
                        lemma_jumps_limit_trunc(buf, p1 + 25, k);
                    } else {
                        lemma_jumps_limit_agree(buf, cut, p1 + 25);
                        if k < p1 + 33 {
                            lemma_read_i32_trunc(buf, p1 + 29, k);
                        } else {
                            lemma_read_i32_agree(buf, cut, p1 + 29);
                            lemma_read_i32_trunc(buf, p1 + 33, k);
                        }
                    }
                }
            }
        }
    }
}

proof fn lemma_i32_values_bounds(buf: Seq<u8>, pos: int, n: int, acc: Seq<i32>)
    requires
        0 <= pos <= buf.len(),
        spec_parse_i32_values(buf, pos, n, acc) is Ok,
    ensures
        pos <= rd_end(spec_parse_i32_values(buf, pos, n, acc)) <= buf.len(),
    decreases n,
{
    if n > 0 {
        let v = spec_read_i32(buf, pos)->Ok_0.0;
        lemma_i32_values_bounds(buf, pos + 4, n - 1, acc.push(v));
    }
}

proof fn lemma_i32_values_agree(buf1: Seq<u8>, buf2: Seq<u8>, pos: int, n: int, acc: Seq<i32>)
    requires
        0 <= pos,
        spec_parse_i32_values(buf1, pos, n, acc) is Ok,
        agree_to(buf1, buf2, rd_end(spec_parse_i32_values(buf1, pos, n, acc))),
    ensures
        spec_parse_i32_values(buf2, pos, n, acc) == spec_parse_i32_values(buf1, pos, n, acc),
    decreases n,
{
    if n > 0 {
        let v = spec_read_i32(buf1, pos)->Ok_0.0;
        lemma_i32_values_bounds(buf1, pos + 4, n - 1, acc.push(v));
        lemma_read_i32_agree(buf1, buf2, pos);
        lemma_i32_values_agree(buf1, buf2, pos + 4, n - 1, acc.push(v));
    }
}

proof fn lemma_i32_values_trunc(buf: Seq<u8>, pos: int, n: int, acc: Seq<i32>, k: int)
    requires
        0 <= pos <= k,
        spec_parse_i32_values(buf, pos, n, acc) is Ok,
        k < rd_end(spec_parse_i32_values(buf, pos, n, acc)),
    ensures
        spec_parse_i32_values(buf.take(k), pos, n, acc) == Err::<
            (Seq<i32>, int),
            ParsingErrorView,
        >(ParsingErrorView::Incomplete),
    decreases n,
{
    let v = spec_read_i32(buf, pos)->Ok_0.0;
    lemma_i32_values_bounds(buf, pos + 4, n - 1, acc.push(v));
    if k < pos + 4 {
        lemma_read_i32_trunc(buf, pos, k);
    } else {
        lemma_read_i32_agree(buf, buf.take(k), pos);
        lemma_i32_values_trunc(buf, pos + 4, n - 1, acc.push(v), k);
    }
}

proof fn lemma_media_agree(buf1: Seq<u8>, buf2: Seq<u8>, pos: int)
    requires
        0 <= pos,
        spec_parse_media(buf1, pos) is Ok,
        agree_to(buf1, buf2, rd_end(spec_parse_media(buf1, pos))),
    ensures
        spec_parse_media(buf2, pos) == spec_parse_media(buf1, pos),
{
    reveal(spec_parse_media);
    let p1 = rd_end(spec_read_string(buf1, pos));
    let p2 = rd_end(spec_read_string(buf1, p1));
    lemma_read_string_bounds(buf1, pos);
    lemma_read_string_bounds(buf1, p1);
    lemma_read_string_bounds(buf1, p2);
    lemma_read_string_agree(buf1, buf2, pos);
    lemma_read_string_agree(buf1, buf2, p1);
    lemma_read_string_agree(buf1, buf2, p2);
}

proof fn lemma_media_trunc(buf: Seq<u8>, pos: int, k: int)
    requires
        0 <= pos <= k,
        spec_parse_media(buf, pos) is Ok,
        k < rd_end(spec_parse_media(buf, pos)),
    ensures
        spec_parse_media(buf.take(k), pos) == Err::<(MediaView, int), ParsingErrorView>(
            ParsingErrorView::Incomplete,
        ),
{
    reveal(spec_parse_media);
    let cut = buf.take(k);
    let p1 = rd_end(spec_read_string(buf, pos));
    let p2 = rd_end(spec_read_string(buf, p1));
    lemma_read_string_bounds(buf, pos);
    lemma_read_string_bounds(buf, p1);
    lemma_read_string_bounds(buf, p2);
    if k < p1 {
        lemma_read_string_trunc(buf, pos, k);
    } else {
        lemma_read_string_agree(buf, cut, pos);
        if k < p2 {
            lemma_read_string_trunc(buf, p1, k);
        } else {
            lemma_read_string_agree(buf, cut, p1);
            lemma_read_string_trunc(buf, p2, k);
        }
    }
}

proof fn lemma_string_replacements_agree(buf1: Seq<u8>, buf2: Seq<u8>, pos: int)
    requires
        0 <= pos,
        spec_parse_string_replacements(buf1, pos) is Ok,
        agree_to(buf1, buf2, rd_end(spec_parse_string_replacements(buf1, pos))),
    ensures
        spec_parse_string_replacements(buf2, pos) == spec_parse_string_replacements(buf1, pos),
{
    let p1 = rd_end(spec_read_string(buf1, pos));
    let p2 = rd_end(spec_read_string(buf1, p1));
    let p3 = rd_end(spec_read_string(buf1, p2));
    let p4 = rd_end(spec_read_string(buf1, p3));
    let p5 = rd_end(spec_read_string(buf1, p4));
    let p6 = rd_end(spec_read_string(buf1, p5));
    lemma_read_string_bounds(buf1, pos);
    lemma_read_string_bounds(buf1, p1);
    lemma_read_string_bounds(buf1, p2);
    lemma_read_string_bounds(buf1, p3);
    lemma_read_string_bounds(buf1, p4);
    lemma_read_string_bounds(buf1, p5);
    lemma_read_string_bounds(buf1, p6);
    lemma_read_string_agree(buf1, buf2, pos);
    lemma_read_string_agree(buf1, buf2, p1);
    lemma_read_string_agree(buf1, buf2, p2);
    lemma_read_string_agree(buf1, buf2, p3);
    lemma_read_string_agree(buf1, buf2, p4);
    lemma_read_string_agree(buf1, buf2, p5);
    lemma_read_string_agree(buf1, buf2, p6);
}

#[verifier::rlimit(100)]
proof fn lemma_string_replacements_trunc(buf: Seq<u8>, pos: int, k: int)
    requires
        0 <= pos <= k,
        spec_parse_string_replacements(buf, pos) is Ok,
        k < rd_end(spec_parse_string_replacements(buf, pos)),
    ensures
        spec_parse_string_replacements(buf.take(k), pos) == Err::<
            (StringReplacementsView, int),
            ParsingErrorView,
        >(ParsingErrorView::Incomplete),
{
    let cut = buf.take(k);
    let p1 = rd_end(spec_read_string(buf, pos));
    let p2 = rd_end(spec_read_string(buf, p1));
    let p3 = rd_end(spec_read_string(buf, p2));
    let p4 = rd_end(spec_read_string(buf, p3));
    let p5 = rd_end(spec_read_string(buf, p4));
    let p6 = rd_end(spec_read_string(buf, p5));
    lemma_read_string_bounds(buf, pos);
    lemma_read_string_bounds(buf, p1);
    lemma_read_string_bounds(buf, p2);
    lemma_read_string_bounds(buf, p3);
    lemma_read_string_bounds(buf, p4);
    lemma_read_string_bounds(buf, p5);
    lemma_read_string_bounds(buf, p6);
    if k < p1 {
        lemma_read_string_trunc(buf, pos, k);
    } else {
        lemma_read_string_agree(buf, cut, pos);
        if k < p2 {
            lemma_read_string_trunc(buf, p1, k);
        } else {
            lemma_read_string_agree(buf, cut, p1);
            if k < p3 {
                lemma_read_string_trunc(buf, p2, k);
            } else {
                lemma_read_string_agree(buf, cut, p2);
                if k < p4 {
                    lemma_read_string_trunc(buf, p3, k);
                } else {
                    lemma_read_string_agree(buf, cut, p3);
                    if k < p5 {
                        lemma_read_string_trunc(buf, p4, k);
                    } else {
                        lemma_read_string_agree(buf, cut, p4);
                        if k < p6 {
                            lemma_read_string_trunc(buf, p5, k);
                        } else {
                            lemma_read_string_agree(buf, cut, p5);
                            lemma_read_string_trunc(buf, p6, k);
                        }
                    }
                }
            }
        }
    }
}

proof fn lemma_info_agree(buf1: Seq<u8>, buf2: Seq<u8>, pos: int)
    requires
        0 <= pos,
        spec_parse_info(buf1, pos) is Ok,
        agree_to(buf1, buf2, rd_end(spec_parse_info(buf1, pos))),
    ensures
        spec_parse_info(buf2, pos) == spec_parse_info(buf1, pos),
{
    let p3 = rd_end(spec_read_string(buf1, pos + 8));
    lemma_read_string_bounds(buf1, pos + 8);
    lemma_read_string_bounds(buf1, p3);
    lemma_read_i32_agree(buf1, buf2, pos);
    lemma_read_i32_agree(buf1, buf2, pos + 4);
    lemma_read_string_agree(buf1, buf2, pos + 8);
    lemma_read_string_agree(buf1, buf2, p3);
}

proof fn lemma_info_trunc(buf: Seq<u8>, pos: int, k: int)
    requires
        0 <= pos <= k,
        spec_parse_info(buf, pos) is Ok,
        k < rd_end(spec_parse_info(buf, pos)),
    ensures
        spec_parse_info(buf.take(k), pos) == Err::<(InfoView, int), ParsingErrorView>(
            ParsingErrorView::Incomplete,
        ),
{
    let cut = buf.take(k);
    let p3 = rd_end(spec_read_string(buf, pos + 8));
    lemma_read_string_bounds(buf, pos + 8);
    if k >= p3 {
        lemma_read_string_bounds(buf, p3);
    }
    if k < pos + 4 {
        lemma_read_i32_trunc(buf, pos, k);
    } else {
        lemma_read_i32_agree(buf, cut, pos);
        if k < pos + 8 {
            lemma_read_i32_trunc(buf, pos + 4, k);
        } else {
            lemma_read_i32_agree(buf, cut, pos + 4);
            if k < p3 {
                lemma_read_string_trunc(buf, pos + 8, k);
            } else {
                lemma_read_string_agree(buf, cut, pos + 8);
                lemma_read_string_trunc(buf, p3, k);
            }
        }
    }
}

proof fn lemma_info_bounds(buf: Seq<u8>, pos: int)
    requires
        0 <= pos,
        spec_parse_info(buf, pos) is Ok,
    ensures
        pos <= rd_end(spec_parse_info(buf, pos)) <= buf.len(),
{
    let p3 = rd_end(spec_read_string(buf, pos + 8));
    lemma_read_string_bounds(buf, pos + 8);
    lemma_read_string_bounds(buf, p3);
}

proof fn lemma_string_replacements_bounds(buf: Seq<u8>, pos: int)
    requires
        0 <= pos,
        spec_parse_string_replacements(buf, pos) is Ok,
    ensures
        pos <= rd_end(spec_parse_string_replacements(buf, pos)) <= buf.len(),
{
    let p1 = rd_end(spec_read_string(buf, pos));
    let p2 = rd_end(spec_read_string(buf, p1));
    let p3 = rd_end(spec_read_string(buf, p2));
    let p4 = rd_end(spec_read_string(buf, p3));
    let p5 = rd_end(spec_read_string(buf, p4));
    let p6 = rd_end(spec_read_string(buf, p5));
    lemma_read_string_bounds(buf, pos);
    lemma_read_string_bounds(buf, p1);
    lemma_read_string_bounds(buf, p2);
    lemma_read_string_bounds(buf, p3);
    lemma_read_string_bounds(buf, p4);
    lemma_read_string_bounds(buf, p5);
    lemma_read_string_bounds(buf, p6);
}

proof fn lemma_condition_agree(buf1: Seq<u8>, buf2: Seq<u8>, pos: int)
    requires
        0 <= pos,
        spec_parse_condition(buf1, pos) is Ok,
        agree_to(buf1, buf2, rd_end(spec_parse_condition(buf1, pos))),
    ensures
        spec_parse_condition(buf2, pos) == spec_parse_condition(buf1, pos),
{
    reveal(spec_parse_condition);
    let eq_count = spec_read_i32(buf1, pos + 12)->Ok_0.0;
    let p6 = rd_end(spec_parse_i32_values(buf1, pos + 17, eq_count as int, Seq::empty()));
    let mod_count = spec_read_i32(buf1, p6)->Ok_0.0;
    lemma_i32_values_bounds(buf1, pos + 17, eq_count as int, Seq::empty());
    lemma_i32_values_bounds(buf1, p6 + 5, mod_count as int, Seq::empty());
    lemma_read_i32_agree(buf1, buf2, pos);
    lemma_read_i32_agree(buf1, buf2, pos + 4);
    lemma_read_i32_agree(buf1, buf2, pos + 8);
    lemma_read_i32_agree(buf1, buf2, pos + 12);
    lemma_read_bool_agree(buf1, buf2, pos + 16);
    lemma_i32_values_agree(buf1, buf2, pos + 17, eq_count as int, Seq::empty());
    lemma_read_i32_agree(buf1, buf2, p6);
    lemma_read_bool_agree(buf1, buf2, p6 + 4);
    lemma_i32_values_agree(buf1, buf2, p6 + 5, mod_count as int, Seq::empty());
}

proof fn lemma_condition_trunc(buf: Seq<u8>, pos: int, k: int)
    requires
        0 <= pos <= k,
        spec_parse_condition(buf, pos) is Ok,
        k < rd_end(spec_parse_condition(buf, pos)),
    ensures
        spec_parse_condition(buf.take(k), pos) == Err::<
            (JumpParameterConditionView, int),
            ParsingErrorView,
        >(ParsingErrorView::Incomplete),
{
    reveal(spec_parse_condition);
    let cut = buf.take(k);
    let eq_count = spec_read_i32(buf, pos + 12)->Ok_0.0;
    let p6 = rd_end(spec_parse_i32_values(buf, pos + 17, eq_count as int, Seq::empty()));
    let mod_count = spec_read_i32(buf, p6)->Ok_0.0;
    lemma_i32_values_bounds(buf, pos + 17, eq_count as int, Seq::empty());
    lemma_i32_values_bounds(buf, p6 + 5, mod_count as int, Seq::empty());
    if k < pos + 4 {
        lemma_read_i32_trunc(buf, pos, k);
    } else {
        lemma_read_i32_agree(buf, cut, pos);
        if k < pos + 8 {
            lemma_read_i32_trunc(buf, pos + 4, k);
        } else {
            lemma_read_i32_agree(buf, cut, pos + 4);
            if k < pos + 12 {
                lemma_read_i32_trunc(buf, pos + 8, k);
            } else {
                lemma_read_i32_agree(buf, cut, pos + 8);
                if k < pos + 16 {
                    lemma_read_i32_trunc(buf, pos + 12, k);
                } else {
                    lemma_read_i32_agree(buf, cut, pos + 12);
                    if k < pos + 17 {
                        lemma_read_bool_trunc(buf, pos + 16, k);
                    } else {
                        lemma_read_bool_agree(buf, cut, pos + 16);
                        if k < p6 {
                            lemma_i32_values_trunc(buf, pos + 17, eq_count as int, Seq::empty(), k);
                        } else {
                            lemma_i32_values_agree(buf, cut, pos + 17, eq_count as int, Seq::empty());
                            if k < p6 + 4 {
                                lemma_read_i32_trunc(buf, p6, k);
                            } else {
                                lemma_read_i32_agree(buf, cut, p6);
                                if k < p6 + 5 {
                                    lemma_read_bool_trunc(buf, p6 + 4, k);
                                } else {
                                    lemma_read_bool_agree(buf, cut, p6 + 4);
                                    lemma_i32_values_trunc(
                                        buf,
                                        p6 + 5,
                                        mod_count as int,
                                        Seq::empty(),
                                        k,
                                    );
                                }
                            }
                        }
                    }
                }
            }
        }
    }
}

proof fn lemma_parameter_change_agree(buf1: Seq<u8>, buf2: Seq<u8>, pos: int)
    requires
        0 <= pos,
        spec_parse_parameter_change(buf1, pos) is Ok,
        agree_to(buf1, buf2, rd_end(spec_parse_parameter_change(buf1, pos))),
    ensures
        spec_parse_parameter_change(buf2, pos) == spec_parse_parameter_change(buf1, pos),
{
    reveal(spec_parse_parameter_change);
    let p5 = rd_end(spec_read_string(buf1, pos + 10));
    let p6 = rd_end(spec_read_string(buf1, p5));
    lemma_read_string_bounds(buf1, pos + 10);
    lemma_read_string_bounds(buf1, p5);
    lemma_media_bounds(buf1, p6);
    lemma_read_i32_agree(buf1, buf2, pos);
    lemma_read_i32_agree(buf1, buf2, pos + 4);
    lemma_read_byte_agree(buf1, buf2, pos + 8);
    lemma_read_byte_agree(buf1, buf2, pos + 9);
    lemma_read_string_agree(buf1, buf2, pos + 10);
    lemma_read_string_agree(buf1, buf2, p5);
    lemma_media_agree(buf1, buf2, p6);
}

#[verifier::rlimit(100)]
#[verifier::spinoff_prover]
proof fn lemma_parameter_change_trunc(buf: Seq<u8>, pos: int, k: int)
    requires
        0 <= pos <= k,
        spec_parse_parameter_change(buf, pos) is Ok,
        k < rd_end(spec_parse_parameter_change(buf, pos)),
    ensures
        spec_parse_parameter_change(buf.take(k), pos) == Err::<
            (ParameterChangeView, int),
            ParsingErrorView,
        >(ParsingErrorView::Incomplete),
{
    reveal(spec_parse_parameter_change);
    let cut = buf.take(k);
    let p5 = rd_end(spec_read_string(buf, pos + 10));
    let p6 = rd_end(spec_read_string(buf, p5));
    lemma_read_string_bounds(buf, pos + 10);
    lemma_read_string_bounds(buf, p5);
    lemma_media_bounds(buf, p6);
    if k < pos + 4 {
        lemma_read_i32_trunc(buf, pos, k);
    } else {
        lemma_read_i32_agree(buf, cut, pos);
        if k < pos + 8 {
            lemma_read_i32_trunc(buf, pos + 4, k);
        } else {
            lemma_read_i32_agree(buf, cut, pos + 4);
            if k < pos + 9 {
                lemma_read_byte_trunc(buf, pos + 8, k);
            } else {
                lemma_read_byte_agree(buf, cut, pos + 8);
                if k < pos + 10 {
                    lemma_read_byte_trunc(buf, pos + 9, k);
                } else {
                    lemma_read_byte_agree(buf, cut, pos + 9);
                    if k < p5 {
                        lemma_read_string_trunc(buf, pos + 10, k);
                    } else {
                        lemma_read_string_agree(buf, cut, pos + 10);
                        if k < p6 {
                            lemma_read_string_trunc(buf, p5, k);
                        } else {
                            lemma_read_string_agree(buf, cut, p5);
                            lemma_media_trunc(buf, p6, k);
                        }
                    }
                }
            }
        }
    }
}

proof fn lemma_range_line_agree(buf1: Seq<u8>, buf2: Seq<u8>, pos: int)
    requires
        0 <= pos,
        spec_parse_range_line(buf1, pos) is Ok,
        agree_to(buf1, buf2, rd_end(spec_parse_range_line(buf1, pos))),
    ensures
        spec_parse_range_line(buf2, pos) == spec_parse_range_line(buf1, pos),
{
    lemma_read_string_bounds(buf1, pos + 8);
    lemma_read_i32_agree(buf1, buf2, pos);
    lemma_read_i32_agree(buf1, buf2, pos + 4);
    lemma_read_string_agree(buf1, buf2, pos + 8);
}

proof fn lemma_range_line_trunc(buf: Seq<u8>, pos: int, k: int)
    requires
        0 <= pos <= k,
        spec_parse_range_line(buf, pos) is Ok,
        k < rd_end(spec_parse_range_line(buf, pos)),
    ensures
        spec_parse_range_line(buf.take(k), pos) == Err::<
            (FormattedRangeLineView, int),
            ParsingErrorView,
        >(ParsingErrorView::Incomplete),
{
    let cut = buf.take(k);
    lemma_read_string_bounds(buf, pos + 8);
    if k < pos + 4 {
        lemma_read_i32_trunc(buf, pos, k);
    } else {
        lemma_read_i32_agree(buf, cut, pos);
        if k < pos + 8 {
            lemma_read_i32_trunc(buf, pos + 4, k);
        } else {
            lemma_read_i32_agree(buf, cut, pos + 4);
            lemma_read_string_trunc(buf, pos + 8, k);
        }
    }
}

proof fn lemma_range_line_bounds(buf: Seq<u8>, pos: int)
    requires
        0 <= pos,
        spec_parse_range_line(buf, pos) is Ok,
    ensures
        pos <= rd_end(spec_parse_range_line(buf, pos)) <= buf.len(),
{
    lemma_read_string_bounds(buf, pos + 8);
}

proof fn lemma_range_lines_bounds(buf: Seq<u8>, pos: int, n: int, acc: Seq<FormattedRangeLineView>)
    requires
        0 <= pos <= buf.len(),
        spec_parse_range_lines(buf, pos, n, acc) is Ok,
    ensures
        pos <= rd_end(spec_parse_range_lines(buf, pos, n, acc)) <= buf.len(),
    decreases n,
{
    if n > 0 {
        let r = spec_parse_range_line(buf, pos)->Ok_0;
        lemma_range_line_bounds(buf, pos);
        lemma_range_lines_bounds(buf, r.1, n - 1, acc.push(r.0));
    }
}

proof fn lemma_range_lines_agree(
    buf1: Seq<u8>,
    buf2: Seq<u8>,
    pos: int,
    n: int,
    acc: Seq<FormattedRangeLineView>,
)
    requires
        0 <= pos,
        spec_parse_range_lines(buf1, pos, n, acc) is Ok,
        agree_to(buf1, buf2, rd_end(spec_parse_range_lines(buf1, pos, n, acc))),
    ensures
        spec_parse_range_lines(buf2, pos, n, acc) == spec_parse_range_lines(buf1, pos, n, acc),
    decreases n,
{
    if n > 0 {
        let r = spec_parse_range_line(buf1, pos)->Ok_0;
        lemma_range_line_bounds(buf1, pos);
        lemma_range_lines_bounds(buf1, r.1, n - 1, acc.push(r.0));
        lemma_range_line_agree(buf1, buf2, pos);
        lemma_range_lines_agree(buf1, buf2, r.1, n - 1, acc.push(r.0));
    }
}

proof fn lemma_range_lines_trunc(
    buf: Seq<u8>,
    pos: int,
    n: int,
    acc: Seq<FormattedRangeLineView>,
    k: int,
)
    requires
        0 <= pos <= k,
        spec_parse_range_lines(buf, pos, n, acc) is Ok,
        k < rd_end(spec_parse_range_lines(buf, pos, n, acc)),
    ensures
        spec_parse_range_lines(buf.take(k), pos, n, acc) == Err::<
            (Seq<FormattedRangeLineView>, int),
            ParsingErrorView,
        >(ParsingErrorView::Incomplete),
    decreases n,
{
    let r = spec_parse_range_line(buf, pos)->Ok_0;
    lemma_range_line_bounds(buf, pos);
    lemma_range_lines_bounds(buf, r.1, n - 1, acc.push(r.0));
    if k < r.1 {
        lemma_range_line_trunc(buf, pos, k);
    } else {
        lemma_range_line_agree(buf, buf.take(k), pos);
        lemma_range_lines_trunc(buf, r.1, n - 1, acc.push(r.0), k);
    }
}

proof fn lemma_parameter_scalars_agree(buf1: Seq<u8>, buf2: Seq<u8>, pos: int)
    requires
        0 <= pos,
        spec_parse_parameter_scalars(buf1, pos) is Ok,
        agree_to(buf1, buf2, rd_end(spec_parse_parameter_scalars(buf1, pos))),
    ensures
        spec_parse_parameter_scalars(buf2, pos) == spec_parse_parameter_scalars(buf1, pos),
{
    lemma_read_i32_agree(buf1, buf2, pos);
    lemma_read_i32_agree(buf1, buf2, pos + 4);
    lemma_read_byte_agree(buf1, buf2, pos + 8);
    lemma_read_bool_agree(buf1, buf2, pos + 12);
    lemma_read_byte_agree(buf1, buf2, pos + 13);
    lemma_read_bool_agree(buf1, buf2, pos + 14);
    lemma_read_i32_agree(buf1, buf2, pos + 15);
    lemma_read_bool_agree(buf1, buf2, pos + 19);
}

#[verifier::spinoff_prover]
proof fn lemma_parameter_scalars_trunc(buf: Seq<u8>, pos: int, k: int)
    requires
        0 <= pos <= k,
        spec_parse_parameter_scalars(buf, pos) is Ok,
        k < rd_end(spec_parse_parameter_scalars(buf, pos)),
    ensures
        spec_parse_parameter_scalars(buf.take(k), pos) == Err::<
            ((i32, i32, ParameterType, bool, CriticalValue, bool, i32, bool), int),
            ParsingErrorView,
        >(ParsingErrorView::Incomplete),
{
    let cut = buf.take(k);
    if k < pos + 4 {
        lemma_read_i32_trunc(buf, pos, k);
    } else {
        lemma_read_i32_agree(buf, cut, pos);
        if k < pos + 8 {
            lemma_read_i32_trunc(buf, pos + 4, k);
        } else {
            lemma_read_i32_agree(buf, cut, pos + 4);
            if k < pos + 9 {
                lemma_read_byte_trunc(buf, pos + 8, k);
            } else {
                lemma_read_byte_agree(buf, cut, pos + 8);
                if k < pos + 13 {
                    assert(spec_read_bool(cut, pos + 12) == Err::<
                        (bool, int),
                        ParsingErrorView,
                    >(ParsingErrorView::Incomplete));
                } else {
                    lemma_read_bool_agree(buf, cut, pos + 12);
                    if k < pos + 14 {
                        lemma_read_byte_trunc(buf, pos + 13, k);
                    } else {
                        lemma_read_byte_agree(buf, cut, pos + 13);
                        if k < pos + 15 {
                            lemma_read_bool_trunc(buf, pos + 14, k);
                        } else {
                            lemma_read_bool_agree(buf, cut, pos + 14);
                            if k < pos + 19 {
                                lemma_read_i32_trunc(buf, pos + 15, k);
                            } else {
                                lemma_read_i32_agree(buf, cut, pos + 15);
                                lemma_read_bool_trunc(buf, pos + 19, k);
                            }
                        }
                    }
                }
            }
        }
    }
}

#[verifier::spinoff_prover]
proof fn lemma_parameter_agree(buf1: Seq<u8>, buf2: Seq<u8>, pos: int)
    requires
        0 <= pos,
        spec_parse_parameter(buf1, pos) is Ok,
        agree_to(buf1, buf2, rd_end(spec_parse_parameter(buf1, pos))),
    ensures
        spec_parse_parameter(buf2, pos) == spec_parse_parameter(buf1, pos),
{
    reveal(spec_parse_parameter);
    let s = spec_parse_parameter_scalars(buf1, pos)->Ok_0;
    let p8 = s.1;
    let n = (s.0.6 as usize) as int;
    let p9 = rd_end(spec_read_string(buf1, p8));
    let p10 = rd_end(spec_parse_range_lines(buf1, p9, n, Seq::empty()));
    let p11 = rd_end(spec_read_string(buf1, p10));
    let p12 = rd_end(spec_read_string(buf1, p11));
    let p13 = rd_end(spec_read_string(buf1, p12));
    let p14 = rd_end(spec_read_string(buf1, p13));
    lemma_read_string_bounds(buf1, p8);
    lemma_range_lines_bounds(buf1, p9, n, Seq::empty());
    lemma_read_string_bounds(buf1, p10);
    lemma_read_string_bounds(buf1, p11);
    lemma_read_string_bounds(buf1, p12);
    lemma_read_string_bounds(buf1, p13);
    lemma_read_string_bounds(buf1, p14);
    lemma_parameter_scalars_agree(buf1, buf2, pos);
    lemma_read_string_agree(buf1, buf2, p8);
    lemma_range_lines_agree(buf1, buf2, p9, n, Seq::empty());
    lemma_read_string_agree(buf1, buf2, p10);
    lemma_read_string_agree(buf1, buf2, p11);
    lemma_read_string_agree(buf1, buf2, p12);
    lemma_read_string_agree(buf1, buf2, p13);
    lemma_read_string_agree(buf1, buf2, p14);
}

#[verifier::rlimit(100)]
#[verifier::spinoff_prover]
proof fn lemma_parameter_trunc(buf: Seq<u8>, pos: int, k: int)
    requires
        0 <= pos <= k,
        spec_parse_parameter(buf, pos) is Ok,
        k < rd_end(spec_parse_parameter(buf, pos)),
    ensures
        spec_parse_parameter(buf.take(k), pos) == Err::<
            (ParameterView, int),
            ParsingErrorView,
        >(ParsingErrorView::Incomplete),
{
    reveal(spec_parse_parameter);
    let cut = buf.take(k);
    let s = spec_parse_parameter_scalars(buf, pos)->Ok_0;
    let p8 = s.1;
    let n = (s.0.6 as usize) as int;
    let p9 = rd_end(spec_read_string(buf, p8));
    let p10 = rd_end(spec_parse_range_lines(buf, p9, n, Seq::empty()));
    let p11 = rd_end(spec_read_string(buf, p10));
    let p12 = rd_end(spec_read_string(buf, p11));
    let p13 = rd_end(spec_read_string(buf, p12));
    let p14 = rd_end(spec_read_string(buf, p13));
    lemma_read_string_bounds(buf, p8);
    lemma_range_lines_bounds(buf, p9, n, Seq::empty());
    lemma_read_string_bounds(buf, p10);
    lemma_read_string_bounds(buf, p11);
    lemma_read_string_bounds(buf, p12);
    lemma_read_string_bounds(buf, p13);
    lemma_read_string_bounds(buf, p14);
    if k < p8 {
        lemma_parameter_scalars_trunc(buf, pos, k);
    } else {
        lemma_parameter_scalars_agree(buf, cut, pos);
        if k < p9 {
            lemma_read_string_trunc(buf, p8, k);
        } else {
            lemma_read_string_agree(buf, cut, p8);
            if k < p10 {
                lemma_range_lines_trunc(buf, p9, n, Seq::empty(), k);
            } else {
                lemma_range_lines_agree(buf, cut, p9, n, Seq::empty());
                if k < p11 {
                    lemma_read_string_trunc(buf, p10, k);
                } else {
                    lemma_read_string_agree(buf, cut, p10);
                    if k < p12 {
                        lemma_read_string_trunc(buf, p11, k);
                    } else {
                        lemma_read_string_agree(buf, cut, p11);
                        if k < p13 {
                            lemma_read_string_trunc(buf, p12, k);
                        } else {
                            lemma_read_string_agree(buf, cut, p12);
                            if k < p14 {
                                lemma_read_string_trunc(buf, p13, k);
                            } else {
                                lemma_read_string_agree(buf, cut, p13);
                                lemma_read_string_trunc(buf, p14, k);
                            }
                        }
                    }
                }
            }
        }
    }
}

proof fn lemma_parameter_change_bounds(buf: Seq<u8>, pos: int)
    requires
        0 <= pos,
        spec_parse_parameter_change(buf, pos) is Ok,
    ensures
        pos <= rd_end(spec_parse_parameter_change(buf, pos)) <= buf.len(),
{
    reveal(spec_parse_parameter_change);
    let p5 = rd_end(spec_read_string(buf, pos + 10));
    let p6 = rd_end(spec_read_string(buf, p5));
    lemma_read_string_bounds(buf, pos + 10);
    lemma_read_string_bounds(buf, p5);
    lemma_media_bounds(buf, p6);
}

proof fn lemma_condition_bounds(buf: Seq<u8>, pos: int)
    requires
        0 <= pos,
        spec_parse_condition(buf, pos) is Ok,
    ensures
        pos <= rd_end(spec_parse_condition(buf, pos)) <= buf.len(),
{
    reveal(spec_parse_condition);
    let eq_count = spec_read_i32(buf, pos + 12)->Ok_0.0;
    let p6 = rd_end(spec_parse_i32_values(buf, pos + 17, eq_count as int, Seq::empty()));
    let mod_count = spec_read_i32(buf, p6)->Ok_0.0;
    lemma_i32_values_bounds(buf, pos + 17, eq_count as int, Seq::empty());
    lemma_i32_values_bounds(buf, p6 + 5, mod_count as int, Seq::empty());
}

proof fn lemma_parameter_bounds(buf: Seq<u8>, pos: int)
    requires
        0 <= pos,
        spec_parse_parameter(buf, pos) is Ok,
    ensures
        pos <= rd_end(spec_parse_parameter(buf, pos)) <= buf.len(),
{
    reveal(spec_parse_parameter);
    let s = spec_parse_parameter_scalars(buf, pos)->Ok_0;
    let p9 = rd_end(spec_read_string(buf, s.1));
    lemma_read_string_bounds(buf, s.1);
    lemma_range_lines_bounds(buf, p9, (s.0.6 as usize) as int, Seq::empty());
    let p10 = rd_end(spec_parse_range_lines(buf, p9, (s.0.6 as usize) as int, Seq::empty()));
    let p11 = rd_end(spec_read_string(buf, p10));
    let p12 = rd_end(spec_read_string(buf, p11));
    let p13 = rd_end(spec_read_string(buf, p12));
    let p14 = rd_end(spec_read_string(buf, p13));
    lemma_read_string_bounds(buf, p10);
    lemma_read_string_bounds(buf, p11);
    lemma_read_string_bounds(buf, p12);
    lemma_read_string_bounds(buf, p13);
    lemma_read_string_bounds(buf, p14);
}

proof fn lemma_changes_bounds(buf: Seq<u8>, pos: int, n: int, acc: Seq<ParameterChangeView>)
    requires
        0 <= pos <= buf.len(),
        spec_parse_changes(buf, pos, n, acc) is Ok,
    ensures
        pos <= rd_end(spec_parse_changes(buf, pos, n, acc)) <= buf.len(),
    decreases n,
{
    if n > 0 {
        let r = spec_parse_parameter_change(buf, pos)->Ok_0;
        lemma_parameter_change_bounds(buf, pos);
        lemma_changes_bounds(buf, r.1, n - 1, acc.push(r.0));
    }
}

proof fn lemma_changes_agree(
    buf1: Seq<u8>,
    buf2: Seq<u8>,
    pos: int,
    n: int,
    acc: Seq<ParameterChangeView>,
)
    requires
        0 <= pos,
        spec_parse_changes(buf1, pos, n, acc) is Ok,
        agree_to(buf1, buf2, rd_end(spec_parse_changes(buf1, pos, n, acc))),
    ensures
        spec_parse_changes(buf2, pos, n, acc) == spec_parse_changes(buf1, pos, n, acc),
    decreases n,
{
    if n > 0 {
        let r = spec_parse_parameter_change(buf1, pos)->Ok_0;
        lemma_parameter_change_bounds(buf1, pos);
        lemma_changes_bounds(buf1, r.1, n - 1, acc.push(r.0));
        lemma_parameter_change_agree(buf1, buf2, pos);
        lemma_changes_agree(buf1, buf2, r.1, n - 1, acc.push(r.0));
    }
}

proof fn lemma_changes_trunc(buf: Seq<u8>, pos: int, n: int, acc: Seq<ParameterChangeView>, k: int)
    requires
        0 <= pos <= k,
        spec_parse_changes(buf, pos, n, acc) is Ok,
        k < rd_end(spec_parse_changes(buf, pos, n, acc)),
    ensures
        spec_parse_changes(buf.take(k), pos, n, acc) == Err::<
            (Seq<ParameterChangeView>, int),
            ParsingErrorView,
        >(ParsingErrorView::Incomplete),
    decreases n,
{
    let r = spec_parse_parameter_change(buf, pos)->Ok_0;
    lemma_parameter_change_bounds(buf, pos);
    lemma_changes_bounds(buf, r.1, n - 1, acc.push(r.0));
    if k < r.1 {
        lemma_parameter_change_trunc(buf, pos, k);
    } else {
        lemma_parameter_change_agree(buf, buf.take(k), pos);
        lemma_changes_trunc(buf, r.1, n - 1, acc.push(r.0), k);
    }
}

proof fn lemma_conditions_bounds(
    buf: Seq<u8>,
    pos: int,
    n: int,
    acc: Seq<JumpParameterConditionView>,
)
    requires
        0 <= pos <= buf.len(),
        spec_parse_conditions(buf, pos, n, acc) is Ok,
    ensures
        pos <= rd_end(spec_parse_conditions(buf, pos, n, acc)) <= buf.len(),
    decreases n,
{
    if n > 0 {
        let r = spec_parse_condition(buf, pos)->Ok_0;
        lemma_condition_bounds(buf, pos);
        lemma_conditions_bounds(buf, r.1, n - 1, acc.push(r.0));
    }
}

proof fn lemma_conditions_agree(
    buf1: Seq<u8>,
    buf2: Seq<u8>,
    pos: int,
    n: int,
    acc: Seq<JumpParameterConditionView>,
)
    requires
        0 <= pos,
        spec_parse_conditions(buf1, pos, n, acc) is Ok,
        agree_to(buf1, buf2, rd_end(spec_parse_conditions(buf1, pos, n, acc))),
    ensures
        spec_parse_conditions(buf2, pos, n, acc) == spec_parse_conditions(buf1, pos, n, acc),
    decreases n,
{
    if n > 0 {
        let r = spec_parse_condition(buf1, pos)->Ok_0;
        lemma_condition_bounds(buf1, pos);
        lemma_conditions_bounds(buf1, r.1, n - 1, acc.push(r.0));
        lemma_condition_agree(buf1, buf2, pos);
        lemma_conditions_agree(buf1, buf2, r.1, n - 1, acc.push(r.0));
    }
}

proof fn lemma_conditions_trunc(
    buf: Seq<u8>,
    pos: int,
    n: int,
    acc: Seq<JumpParameterConditionView>,
    k: int,
)
    requires
        0 <= pos <= k,
        spec_parse_conditions(buf, pos, n, acc) is Ok,
        k < rd_end(spec_parse_conditions(buf, pos, n, acc)),
    ensures
        spec_parse_conditions(buf.take(k), pos, n, acc) == Err::<
            (Seq<JumpParameterConditionView>, int),
            ParsingErrorView,
        >(ParsingErrorView::Incomplete),
    decreases n,
{
    let r = spec_parse_condition(buf, pos)->Ok_0;
    lemma_condition_bounds(buf, pos);
    lemma_conditions_bounds(buf, r.1, n - 1, acc.push(r.0));
    if k < r.1 {
        lemma_condition_trunc(buf, pos, k);
    } else {
        lemma_condition_agree(buf, buf.take(k), pos);
        lemma_conditions_trunc(buf, r.1, n - 1, acc.push(r.0), k);
    }
}

proof fn lemma_texts_media_bounds(
    buf: Seq<u8>,
    pos: int,
    n: int,
    tacc: Seq<Seq<TextElementView>>,
    macc: Seq<MediaView>,
)
    requires
        0 <= pos <= buf.len(),
        spec_parse_texts_media(buf, pos, n, tacc, macc) is Ok,
    ensures
        pos <= spec_parse_texts_media(buf, pos, n, tacc, macc)->Ok_0.2 <= buf.len(),
    decreases n,
{
    if n > 0 {
        let p1 = rd_end(spec_read_string(buf, pos));
        let text = spec_read_string(buf, pos)->Ok_0.0;
        let m = spec_parse_media(buf, p1)->Ok_0;
        lemma_read_string_bounds(buf, pos);
        lemma_media_bounds(buf, p1);
        lemma_texts_media_bounds(
            buf,
            m.1,
            n - 1,
            tacc.push(spec_scan_markup(text)),
            macc.push(m.0),
        );
    }
}

proof fn lemma_texts_media_agree(
    buf1: Seq<u8>,
    buf2: Seq<u8>,
    pos: int,
    n: int,
    tacc: Seq<Seq<TextElementView>>,
    macc: Seq<MediaView>,
)
    requires
        0 <= pos,
        spec_parse_texts_media(buf1, pos, n, tacc, macc) is Ok,
        agree_to(buf1, buf2, spec_parse_texts_media(buf1, pos, n, tacc, macc)->Ok_0.2),
    ensures
        spec_parse_texts_media(buf2, pos, n, tacc, macc) == spec_parse_texts_media(
            buf1,
            pos,
            n,
            tacc,
            macc,
        ),
    decreases n,
{
    if n > 0 {
        let p1 = rd_end(spec_read_string(buf1, pos));
        let text = spec_read_string(buf1, pos)->Ok_0.0;
        let m = spec_parse_media(buf1, p1)->Ok_0;
        lemma_read_string_bounds(buf1, pos);
        lemma_media_bounds(buf1, p1);
        lemma_texts_media_bounds(
            buf1,
            m.1,
            n - 1,
            tacc.push(spec_scan_markup(text)),
            macc.push(m.0),
        );
        lemma_read_string_agree(buf1, buf2, pos);
        lemma_media_agree(buf1, buf2, p1);
        lemma_texts_media_agree(
            buf1,
            buf2,
            m.1,
            n - 1,
            tacc.push(spec_scan_markup(text)),
            macc.push(m.0),
        );
    }
}

#[verifier::rlimit(100)]
#[verifier::spinoff_prover]
proof fn lemma_texts_media_trunc(
    buf: Seq<u8>,
    pos: int,
    n: int,
    tacc: Seq<Seq<TextElementView>>,
    macc: Seq<MediaView>,
    k: int,
)
    requires
        0 <= pos <= k,
        spec_parse_texts_media(buf, pos, n, tacc, macc) is Ok,
        k < spec_parse_texts_media(buf, pos, n, tacc, macc)->Ok_0.2,
    ensures
        spec_parse_texts_media(buf.take(k), pos, n, tacc, macc) == Err::<
            (Seq<Seq<TextElementView>>, Seq<MediaView>, int),
            ParsingErrorView,
        >(ParsingErrorView::Incomplete),
    decreases n,
{
    let cut = buf.take(k);
    let p1 = rd_end(spec_read_string(buf, pos));
    let text = spec_read_string(buf, pos)->Ok_0.0;
    let m = spec_parse_media(buf, p1)->Ok_0;
    lemma_read_string_bounds(buf, pos);
    lemma_media_bounds(buf, p1);
    lemma_texts_media_bounds(buf, m.1, n - 1, tacc.push(spec_scan_markup(text)), macc.push(m.0));
    if k < p1 {
        lemma_read_string_trunc(buf, pos, k);
    } else {
        lemma_read_string_agree(buf, cut, pos);
        if k < m.1 {
            lemma_media_trunc(buf, p1, k);
        } else {
            lemma_media_agree(buf, cut, p1);
            lemma_texts_media_trunc(
                buf,
                m.1,
                n - 1,
                tacc.push(spec_scan_markup(text)),
                macc.push(m.0),
                k,
            );
        }
    }
}

proof fn lemma_location_scalars_agree(buf1: Seq<u8>, buf2: Seq<u8>, pos: int)
    requires
        0 <= pos,
        spec_parse_location_scalars(buf1, pos) is Ok,
        agree_to(buf1, buf2, rd_end(spec_parse_location_scalars(buf1, pos))),
    ensures
        spec_parse_location_scalars(buf2, pos) == spec_parse_location_scalars(buf1, pos),
{
    lemma_read_i32_agree(buf1, buf2, pos);
    lemma_read_i32_agree(buf1, buf2, pos + 4);
    lemma_read_i32_agree(buf1, buf2, pos + 8);
    lemma_read_i32_agree(buf1, buf2, pos + 12);
    lemma_read_i32_agree(buf1, buf2, pos + 16);
    lemma_read_byte_agree(buf1, buf2, pos + 20);
}

#[verifier::spinoff_prover]
proof fn lemma_location_scalars_trunc(buf: Seq<u8>, pos: int, k: int)
    requires
        0 <= pos <= k,
        spec_parse_location_scalars(buf, pos) is Ok,
        k < rd_end(spec_parse_location_scalars(buf, pos)),
    ensures
        spec_parse_location_scalars(buf.take(k), pos) == Err::<
            ((i32, i32, i32, LocationType), int),
            ParsingErrorView,
        >(ParsingErrorView::Incomplete),
{
    let cut = buf.take(k);
    if k < pos + 4 {
        lemma_read_i32_trunc(buf, pos, k);
    } else {
        lemma_read_i32_agree(buf, cut, pos);
        if k < pos + 8 {
            lemma_read_i32_trunc(buf, pos + 4, k);
        } else {
            lemma_read_i32_agree(buf, cut, pos + 4);
            if k < pos + 12 {
                lemma_read_i32_trunc(buf, pos + 8, k);
            } else {
                lemma_read_i32_agree(buf, cut, pos + 8);
                if k < pos + 16 {
                    lemma_read_i32_trunc(buf, pos + 12, k);
                } else {
                    lemma_read_i32_agree(buf, cut, pos + 12);
                    if k < pos + 20 {
                        lemma_read_i32_trunc(buf, pos + 16, k);
                    } else {
                        lemma_read_i32_agree(buf, cut, pos + 16);
                        lemma_read_byte_trunc(buf, pos + 20, k);
                    }
                }
            }
        }
    }
}

proof fn lemma_location_bounds(buf: Seq<u8>, pos: int)
    requires
        0 <= pos,
        spec_parse_location(buf, pos) is Ok,
    ensures
        pos <= rd_end(spec_parse_location(buf, pos)) <= buf.len(),
{
    reveal(spec_parse_location);
    let p6 = rd_end(spec_parse_location_scalars(buf, pos));
    let changes_count = spec_read_i32(buf, p6)->Ok_0.0;
    lemma_changes_bounds(buf, p6 + 4, changes_count as int, Seq::empty());
    let p8 = rd_end(spec_parse_changes(buf, p6 + 4, changes_count as int, Seq::empty()));
    let texts_count = spec_read_i32(buf, p8)->Ok_0.0;
    lemma_texts_media_bounds(buf, p8 + 4, texts_count as int, Seq::empty(), Seq::empty());
    let p10 = spec_parse_texts_media(
        buf,
        p8 + 4,
        texts_count as int,
        Seq::empty(),
        Seq::empty(),
    )->Ok_0.2;
    lemma_read_string_bounds(buf, p10 + 1);
}

#[verifier::spinoff_prover]
proof fn lemma_location_agree(buf1: Seq<u8>, buf2: Seq<u8>, pos: int)
    requires
        0 <= pos,
        spec_parse_location(buf1, pos) is Ok,
        agree_to(buf1, buf2, rd_end(spec_parse_location(buf1, pos))),
    ensures
        spec_parse_location(buf2, pos) == spec_parse_location(buf1, pos),
{
    reveal(spec_parse_location);
    let p6 = rd_end(spec_parse_location_scalars(buf1, pos));
    let changes_count = spec_read_i32(buf1, p6)->Ok_0.0;
    let p8 = rd_end(spec_parse_changes(buf1, p6 + 4, changes_count as int, Seq::empty()));
    let texts_count = spec_read_i32(buf1, p8)->Ok_0.0;
    let p10 = spec_parse_texts_media(
        buf1,
        p8 + 4,
        texts_count as int,
        Seq::empty(),
        Seq::empty(),
    )->Ok_0.2;
    lemma_changes_bounds(buf1, p6 + 4, changes_count as int, Seq::empty());
    lemma_texts_media_bounds(buf1, p8 + 4, texts_count as int, Seq::empty(), Seq::empty());
    lemma_read_string_bounds(buf1, p10 + 1);
    lemma_location_scalars_agree(buf1, buf2, pos);
    lemma_read_i32_agree(buf1, buf2, p6);
    lemma_changes_agree(buf1, buf2, p6 + 4, changes_count as int, Seq::empty());
    lemma_read_i32_agree(buf1, buf2, p8);
    lemma_texts_media_agree(buf1, buf2, p8 + 4, texts_count as int, Seq::empty(), Seq::empty());
    lemma_read_bool_agree(buf1, buf2, p10);
    lemma_read_string_agree(buf1, buf2, p10 + 1);
}

/// A cut inside the scalar fields or the parameter-change list of one
/// location fails for want of bytes.
#[verifier::rlimit(100)]
#[verifier::spinoff_prover]
proof fn lemma_location_trunc_front(buf: Seq<u8>, pos: int, k: int)
    requires
        0 <= pos <= k,
        spec_parse_location(buf, pos) is Ok,
        k < rd_end(
            spec_parse_changes(
                buf,
                rd_end(spec_parse_location_scalars(buf, pos)) + 4,
                spec_read_i32(buf, rd_end(spec_parse_location_scalars(buf, pos)))->Ok_0.0 as int,
                Seq::empty(),
            ),
        ) + 4,
    ensures
        spec_parse_location(buf.take(k), pos) == Err::<
            (LocationView, int),
            ParsingErrorView,
        >(ParsingErrorView::Incomplete),
{
    reveal(spec_parse_location);
    let cut = buf.take(k);
    let p6 = rd_end(spec_parse_location_scalars(buf, pos));
    let changes_count = spec_read_i32(buf, p6)->Ok_0.0;
    let p8 = rd_end(spec_parse_changes(buf, p6 + 4, changes_count as int, Seq::empty()));
    lemma_changes_bounds(buf, p6 + 4, changes_count as int, Seq::empty());
    if k < p6 {
        lemma_location_scalars_trunc(buf, pos, k);
    } else {
        lemma_location_scalars_agree(buf, cut, pos);
        if k < p6 + 4 {
            lemma_read_i32_trunc(buf, p6, k);
        } else {
            lemma_read_i32_agree(buf, cut, p6);
            if k < p8 {
                lemma_changes_trunc(buf, p6 + 4, changes_count as int, Seq::empty(), k);
            } else {
                lemma_changes_agree(buf, cut, p6 + 4, changes_count as int, Seq::empty());
                lemma_read_i32_trunc(buf, p8, k);
            }
        }
    }
}

/// A cut inside the presentation slots of one location fails for want of
/// bytes.
#[verifier::rlimit(100)]
#[verifier::spinoff_prover]
proof fn lemma_location_trunc_slots(buf: Seq<u8>, pos: int, k: int)
    requires
        0 <= pos <= k,
        spec_parse_location(buf, pos) is Ok,
        rd_end(
            spec_parse_changes(
                buf,
                rd_end(spec_parse_location_scalars(buf, pos)) + 4,
                spec_read_i32(buf, rd_end(spec_parse_location_scalars(buf, pos)))->Ok_0.0 as int,
                Seq::empty(),
            ),
        ) + 4 <= k,
        k < ({
            let p8 = rd_end(
                spec_parse_changes(
                    buf,
                    rd_end(spec_parse_location_scalars(buf, pos)) + 4,
                    spec_read_i32(
                        buf,
                        rd_end(spec_parse_location_scalars(buf, pos)),
                    )->Ok_0.0 as int,
                    Seq::empty(),
                ),
            );
            spec_parse_texts_media(
                buf,
                p8 + 4,
                spec_read_i32(buf, p8)->Ok_0.0 as int,
                Seq::empty(),
                Seq::empty(),
            )->Ok_0.2
        }),
    ensures
        spec_parse_location(buf.take(k), pos) == Err::<
            (LocationView, int),
            ParsingErrorView,
        >(ParsingErrorView::Incomplete),
{
    reveal(spec_parse_location);
    let cut = buf.take(k);
    let p6 = rd_end(spec_parse_location_scalars(buf, pos));
    let changes_count = spec_read_i32(buf, p6)->Ok_0.0;
    let p8 = rd_end(spec_parse_changes(buf, p6 + 4, changes_count as int, Seq::empty()));
    let texts_count = spec_read_i32(buf, p8)->Ok_0.0;
    lemma_changes_bounds(buf, p6 + 4, changes_count as int, Seq::empty());
    lemma_location_scalars_agree(buf, cut, pos);
    lemma_read_i32_agree(buf, cut, p6);
    lemma_changes_agree(buf, cut, p6 + 4, changes_count as int, Seq::empty());
    lemma_read_i32_agree(buf, cut, p8);
    lemma_texts_media_trunc(buf, p8 + 4, texts_count as int, Seq::empty(), Seq::empty(), k);
}

/// A cut inside the selection policy of one location fails for want of
/// bytes; `p10` is the position of the policy flag.
#[verifier::rlimit(100)]
#[verifier::spinoff_prover]
proof fn lemma_location_trunc_select(buf: Seq<u8>, pos: int, k: int, p10: int)
    requires
        0 <= pos <= k,
        spec_parse_location(buf, pos) is Ok,
        ({
            let p6 = rd_end(spec_parse_location_scalars(buf, pos));
            let p8 = rd_end(
                spec_parse_changes(
                    buf,
                    p6 + 4,
                    spec_read_i32(buf, p6)->Ok_0.0 as int,
                    Seq::empty(),
                ),
            );
            p10 == spec_parse_texts_media(
                buf,
                p8 + 4,
                spec_read_i32(buf, p8)->Ok_0.0 as int,
                Seq::empty(),
                Seq::empty(),
            )->Ok_0.2
        }),
        p10 <= k,
        k < rd_end(spec_parse_location(buf, pos)),
    ensures
        spec_parse_location(buf.take(k), pos) == Err::<
            (LocationView, int),
            ParsingErrorView,
        >(ParsingErrorView::Incomplete),
{
    reveal(spec_parse_location);
    let cut = buf.take(k);
    let p6 = rd_end(spec_parse_location_scalars(buf, pos));
    let changes_count = spec_read_i32(buf, p6)->Ok_0.0;
    let p8 = rd_end(spec_parse_changes(buf, p6 + 4, changes_count as int, Seq::empty()));
    let texts_count = spec_read_i32(buf, p8)->Ok_0.0;
    lemma_changes_bounds(buf, p6 + 4, changes_count as int, Seq::empty());
    lemma_texts_media_bounds(buf, p8 + 4, texts_count as int, Seq::empty(), Seq::empty());
    lemma_read_string_bounds(buf, p10 + 1);
    lemma_location_scalars_agree(buf, cut, pos);
    lemma_read_i32_agree(buf, cut, p6);
    lemma_changes_agree(buf, cut, p6 + 4, changes_count as int, Seq::empty());
    lemma_read_i32_agree(buf, cut, p8);
    lemma_texts_media_agree(buf, cut, p8 + 4, texts_count as int, Seq::empty(), Seq::empty());
    if k < p10 + 1 {
        lemma_read_bool_trunc(buf, p10, k);
    } else {
        lemma_read_bool_agree(buf, cut, p10);
        lemma_read_string_trunc(buf, p10 + 1, k);
    }
}

/// A cut anywhere inside one location record fails for want of bytes.
proof fn lemma_location_trunc(buf: Seq<u8>, pos: int, k: int)
    requires
        0 <= pos <= k,
        spec_parse_location(buf, pos) is Ok,
        k < rd_end(spec_parse_location(buf, pos)),
    ensures
        spec_parse_location(buf.take(k), pos) == Err::<
            (LocationView, int),
            ParsingErrorView,
        >(ParsingErrorView::Incomplete),
{
    reveal(spec_parse_location);
    let p6 = rd_end(spec_parse_location_scalars(buf, pos));
    let changes_count = spec_read_i32(buf, p6)->Ok_0.0;
    let p8 = rd_end(spec_parse_changes(buf, p6 + 4, changes_count as int, Seq::empty()));
    let texts_count = spec_read_i32(buf, p8)->Ok_0.0;
    let p10 = spec_parse_texts_media(
        buf,
        p8 + 4,
        texts_count as int,
        Seq::empty(),
        Seq::empty(),
    )->Ok_0.2;
    if k < p8 + 4 {
        lemma_location_trunc_front(buf, pos, k);
    } else if k < p10 {
        lemma_location_trunc_slots(buf, pos, k);
    } else {
        lemma_location_trunc_select(buf, pos, k, p10);
    }
}

proof fn lemma_jump_scalars_agree(buf1: Seq<u8>, buf2: Seq<u8>, pos: int)
    requires
        0 <= pos,
        spec_parse_jump_scalars(buf1, pos) is Ok,
        agree_to(buf1, buf2, rd_end(spec_parse_jump_scalars(buf1, pos))),
    ensures
        spec_parse_jump_scalars(buf2, pos) == spec_parse_jump_scalars(buf1, pos),
{
    lemma_read_f64_bits_agree(buf1, buf2, pos);
    lemma_read_i32_agree(buf1, buf2, pos + 8);
    lemma_read_i32_agree(buf1, buf2, pos + 12);
    lemma_read_i32_agree(buf1, buf2, pos + 16);
    lemma_read_i32_agree(buf1, buf2, pos + 20);
    lemma_read_bool_agree(buf1, buf2, pos + 24);
    lemma_read_i32_agree(buf1, buf2, pos + 25);
    lemma_read_i32_agree(buf1, buf2, pos + 29);
    lemma_read_i32_agree(buf1, buf2, pos + 33);
}

#[verifier::rlimit(100)]
#[verifier::spinoff_prover]
proof fn lemma_jump_scalars_trunc(buf: Seq<u8>, pos: int, k: int)
    requires
        0 <= pos <= k,
        spec_parse_jump_scalars(buf, pos) is Ok,
        k < rd_end(spec_parse_jump_scalars(buf, pos)),
    ensures
        spec_parse_jump_scalars(buf.take(k), pos) == Err::<
            ((u64, i32, i32, i32, i32, bool, i32, i32, i32), int),
            ParsingErrorView,
        >(ParsingErrorView::Incomplete),
{
    let cut = buf.take(k);
    if k < pos + 8 {
        lemma_read_f64_bits_trunc(buf, pos, k);
    } else {
        lemma_read_f64_bits_agree(buf, cut, pos);
        if k < pos + 12 {
            lemma_read_i32_trunc(buf, pos + 8, k);
        } else {
            lemma_read_i32_agree(buf, cut, pos + 8);
            if k < pos + 16 {
                lemma_read_i32_trunc(buf, pos + 12, k);
            } else {
                lemma_read_i32_agree(buf, cut, pos + 12);
                if k < pos + 20 {
                    lemma_read_i32_trunc(buf, pos + 16, k);
                } else {
                    lemma_read_i32_agree(buf, cut, pos + 16);
                    if k < pos + 24 {
                        lemma_read_i32_trunc(buf, pos + 20, k);
                    } else {
                        lemma_read_i32_agree(buf, cut, pos + 20);
                        if k < pos + 25 {
                            lemma_read_bool_trunc(buf, pos + 24, k);
                        } else {
                            lemma_read_bool_agree(buf, cut, pos + 24);
                            if k < pos + 29 {
                                lemma_read_i32_trunc(buf, pos + 25, k);
                            } else {
                                lemma_read_i32_agree(buf, cut, pos + 25);
                                if k < pos + 33 {
                                    lemma_read_i32_trunc(buf, pos + 29, k);
                                } else {
                                    lemma_read_i32_agree(buf, cut, pos + 29);
                                    lemma_read_i32_trunc(buf, pos + 33, k);
                                }
                            }
                        }
                    }
                }
            }
        }
    }
}

#[verifier::rlimit(100)]
#[verifier::spinoff_prover]
proof fn lemma_jump_bounds(buf: Seq<u8>, pos: int)
    requires
        0 <= pos,
        spec_parse_jump(buf, pos) is Ok,
    ensures
        pos <= rd_end(spec_parse_jump(buf, pos)) <= buf.len(),
{
    reveal(spec_parse_jump);
    let s = spec_parse_jump_scalars(buf, pos)->Ok_0;
    lemma_conditions_bounds(buf, s.1, s.0.8 as int, Seq::empty());
    let p10 = rd_end(spec_parse_conditions(buf, s.1, s.0.8 as int, Seq::empty()));
    let changes_count = spec_read_i32(buf, p10)->Ok_0.0;
    lemma_changes_bounds(buf, p10 + 4, changes_count as int, Seq::empty());
    let p12 = rd_end(spec_parse_changes(buf, p10 + 4, changes_count as int, Seq::empty()));
    let p13 = rd_end(spec_read_string(buf, p12));
    let p14 = rd_end(spec_read_string(buf, p13));
    let p15 = rd_end(spec_read_string(buf, p14));
    lemma_read_string_bounds(buf, p12);
    lemma_read_string_bounds(buf, p13);
    lemma_read_string_bounds(buf, p14);
    lemma_media_bounds(buf, p15);
}

#[verifier::rlimit(100)]
#[verifier::spinoff_prover]
proof fn lemma_jump_agree(buf1: Seq<u8>, buf2: Seq<u8>, pos: int)
    requires
        0 <= pos,
        spec_parse_jump(buf1, pos) is Ok,
        agree_to(buf1, buf2, rd_end(spec_parse_jump(buf1, pos))),
    ensures
        spec_parse_jump(buf2, pos) == spec_parse_jump(buf1, pos),
{
    reveal(spec_parse_jump);
    let s = spec_parse_jump_scalars(buf1, pos)->Ok_0;
    let p10 = rd_end(spec_parse_conditions(buf1, s.1, s.0.8 as int, Seq::empty()));
    let changes_count = spec_read_i32(buf1, p10)->Ok_0.0;
    let p12 = rd_end(spec_parse_changes(buf1, p10 + 4, changes_count as int, Seq::empty()));
    let p13 = rd_end(spec_read_string(buf1, p12));
    let p14 = rd_end(spec_read_string(buf1, p13));
    let p15 = rd_end(spec_read_string(buf1, p14));
    lemma_conditions_bounds(buf1, s.1, s.0.8 as int, Seq::empty());
    lemma_changes_bounds(buf1, p10 + 4, changes_count as int, Seq::empty());
    lemma_read_string_bounds(buf1, p12);
    lemma_read_string_bounds(buf1, p13);
    lemma_read_string_bounds(buf1, p14);
    lemma_media_bounds(buf1, p15);
    lemma_jump_scalars_agree(buf1, buf2, pos);
    lemma_conditions_agree(buf1, buf2, s.1, s.0.8 as int, Seq::empty());
    lemma_read_i32_agree(buf1, buf2, p10);
    lemma_changes_agree(buf1, buf2, p10 + 4, changes_count as int, Seq::empty());
    lemma_read_string_agree(buf1, buf2, p12);
    lemma_read_string_agree(buf1, buf2, p13);
    lemma_read_string_agree(buf1, buf2, p14);
    lemma_media_agree(buf1, buf2, p15);
}

/// A cut inside the scalar fields, conditions or parameter changes of one
/// jump fails for want of bytes.
#[verifier::rlimit(100)]
#[verifier::spinoff_prover]
proof fn lemma_jump_trunc_front(buf: Seq<u8>, pos: int, k: int)
    requires
        0 <= pos <= k,
        spec_parse_jump(buf, pos) is Ok,
        ({
            let s = spec_parse_jump_scalars(buf, pos)->Ok_0;
            let p10 = rd_end(spec_parse_conditions(buf, s.1, s.0.8 as int, Seq::empty()));
            k < rd_end(
                spec_parse_changes(
                    buf,
                    p10 + 4,
                    spec_read_i32(buf, p10)->Ok_0.0 as int,
                    Seq::empty(),
                ),
            )
        }),
    ensures
        spec_parse_jump(buf.take(k), pos) == Err::<(JumpView, int), ParsingErrorView>(
            ParsingErrorView::Incomplete,
        ),
{
    reveal(spec_parse_jump);
    let cut = buf.take(k);
    let s = spec_parse_jump_scalars(buf, pos)->Ok_0;
    let p10 = rd_end(spec_parse_conditions(buf, s.1, s.0.8 as int, Seq::empty()));
    let changes_count = spec_read_i32(buf, p10)->Ok_0.0;
    lemma_conditions_bounds(buf, s.1, s.0.8 as int, Seq::empty());
    lemma_changes_bounds(buf, p10 + 4, changes_count as int, Seq::empty());
    if k < s.1 {
        lemma_jump_scalars_trunc(buf, pos, k);
    } else {
        lemma_jump_scalars_agree(buf, cut, pos);
        if k < p10 {
            lemma_conditions_trunc(buf, s.1, s.0.8 as int, Seq::empty(), k);
        } else {
            lemma_conditions_agree(buf, cut, s.1, s.0.8 as int, Seq::empty());
            if k < p10 + 4 {
                lemma_read_i32_trunc(buf, p10, k);
            } else {
                lemma_read_i32_agree(buf, cut, p10);
                lemma_changes_trunc(buf, p10 + 4, changes_count as int, Seq::empty(), k);
            }
        }
    }
}

/// A cut inside the formula or display texts of one jump fails for want of
/// bytes; `p12` is the position of the formula string.
#[verifier::rlimit(100)]
#[verifier::spinoff_prover]
proof fn lemma_jump_trunc_strings(buf: Seq<u8>, pos: int, k: int, p12: int)
    requires
        0 <= pos <= k,
        spec_parse_jump(buf, pos) is Ok,
        ({
            let s = spec_parse_jump_scalars(buf, pos)->Ok_0;
            let p10 = rd_end(spec_parse_conditions(buf, s.1, s.0.8 as int, Seq::empty()));
            p12 == rd_end(
                spec_parse_changes(
                    buf,
                    p10 + 4,
                    spec_read_i32(buf, p10)->Ok_0.0 as int,
                    Seq::empty(),
                ),
            )
        }),
        p12 <= k,
        k < rd_end(spec_read_string(buf, rd_end(spec_read_string(buf, rd_end(spec_read_string(buf, p12)))))),
    ensures
        spec_parse_jump(buf.take(k), pos) == Err::<(JumpView, int), ParsingErrorView>(
            ParsingErrorView::Incomplete,
        ),
{
    reveal(spec_parse_jump);
    let cut = buf.take(k);
    let s = spec_parse_jump_scalars(buf, pos)->Ok_0;
    let p10 = rd_end(spec_parse_conditions(buf, s.1, s.0.8 as int, Seq::empty()));
    let changes_count = spec_read_i32(buf, p10)->Ok_0.0;
    let p13 = rd_end(spec_read_string(buf, p12));
    let p14 = rd_end(spec_read_string(buf, p13));
    lemma_conditions_bounds(buf, s.1, s.0.8 as int, Seq::empty());
    lemma_changes_bounds(buf, p10 + 4, changes_count as int, Seq::empty());
    lemma_read_string_bounds(buf, p12);
    lemma_read_string_bounds(buf, p13);
    lemma_read_string_bounds(buf, p14);
    lemma_jump_scalars_agree(buf, cut, pos);
    lemma_conditions_agree(buf, cut, s.1, s.0.8 as int, Seq::empty());
    lemma_read_i32_agree(buf, cut, p10);
    lemma_changes_agree(buf, cut, p10 + 4, changes_count as int, Seq::empty());
    if k < p13 {
        lemma_read_string_trunc(buf, p12, k);
    } else {
        lemma_read_string_agree(buf, cut, p12);
        if k < p14 {
            lemma_read_string_trunc(buf, p13, k);
        } else {
            lemma_read_string_agree(buf, cut, p13);
            lemma_read_string_trunc(buf, p14, k);
        }
    }
}

/// A cut inside the media reference of one jump fails for want of bytes;
/// `p12` is the position of the formula string.
#[verifier::rlimit(100)]
#[verifier::spinoff_prover]
proof fn lemma_jump_trunc_media(buf: Seq<u8>, pos: int, k: int, p12: int)
    requires
        0 <= pos <= k,
        spec_parse_jump(buf, pos) is Ok,
        ({
            let s = spec_parse_jump_scalars(buf, pos)->Ok_0;
            let p10 = rd_end(spec_parse_conditions(buf, s.1, s.0.8 as int, Seq::empty()));
            p12 == rd_end(
                spec_parse_changes(
                    buf,
                    p10 + 4,
                    spec_read_i32(buf, p10)->Ok_0.0 as int,
                    Seq::empty(),
                ),
            )
        }),
        rd_end(spec_read_string(buf, rd_end(spec_read_string(buf, rd_end(spec_read_string(buf, p12)))))) <= k,
        k < rd_end(spec_parse_jump(buf, pos)),
    ensures
        spec_parse_jump(buf.take(k), pos) == Err::<(JumpView, int), ParsingErrorView>(
            ParsingErrorView::Incomplete,
        ),
{
    reveal(spec_parse_jump);
    let cut = buf.take(k);
    let s = spec_parse_jump_scalars(buf, pos)->Ok_0;
    let p10 = rd_end(spec_parse_conditions(buf, s.1, s.0.8 as int, Seq::empty()));
    let changes_count = spec_read_i32(buf, p10)->Ok_0.0;
    let p13 = rd_end(spec_read_string(buf, p12));
    let p14 = rd_end(spec_read_string(buf, p13));
    let p15 = rd_end(spec_read_string(buf, p14));
    lemma_jump_bounds(buf, pos);
    assert(pos <= s.1 <= buf.len());
    lemma_conditions_bounds(buf, s.1, s.0.8 as int, Seq::empty());
    lemma_changes_bounds(buf, p10 + 4, changes_count as int, Seq::empty());
    lemma_read_string_bounds(buf, p12);
    lemma_read_string_bounds(buf, p13);
    lemma_read_string_bounds(buf, p14);
    assert(s.1 <= k);
    lemma_jump_scalars_agree(buf, cut, pos);
    lemma_conditions_agree(buf, cut, s.1, s.0.8 as int, Seq::empty());
    lemma_read_i32_agree(buf, cut, p10);
    lemma_changes_agree(buf, cut, p10 + 4, changes_count as int, Seq::empty());
    lemma_read_string_agree(buf, cut, p12);
    lemma_read_string_agree(buf, cut, p13);
    lemma_read_string_agree(buf, cut, p14);
    lemma_media_trunc(buf, p15, k);
}

/// A cut anywhere inside one jump record fails for want of bytes.
proof fn lemma_jump_trunc(buf: Seq<u8>, pos: int, k: int)
    requires
        0 <= pos <= k,
        spec_parse_jump(buf, pos) is Ok,
        k < rd_end(spec_parse_jump(buf, pos)),
    ensures
        spec_parse_jump(buf.take(k), pos) == Err::<(JumpView, int), ParsingErrorView>(
            ParsingErrorView::Incomplete,
        ),
{
    reveal(spec_parse_jump);
    let s = spec_parse_jump_scalars(buf, pos)->Ok_0;
    let p10 = rd_end(spec_parse_conditions(buf, s.1, s.0.8 as int, Seq::empty()));
    let changes_count = spec_read_i32(buf, p10)->Ok_0.0;
    let p12 = rd_end(spec_parse_changes(buf, p10 + 4, changes_count as int, Seq::empty()));
    let p13 = rd_end(spec_read_string(buf, p12));
    let p14 = rd_end(spec_read_string(buf, p13));
    let p15 = rd_end(spec_read_string(buf, p14));
    if k < p12 {
        lemma_jump_trunc_front(buf, pos, k);
    } else if k < p15 {
        lemma_jump_trunc_strings(buf, pos, k, p12);
    } else {
        lemma_jump_trunc_media(buf, pos, k, p12);
    }
}

proof fn lemma_params_bounds(buf: Seq<u8>, pos: int, n: int, acc: Seq<ParameterView>)
    requires
        0 <= pos <= buf.len(),
        spec_parse_params(buf, pos, n, acc) is Ok,
    ensures
        pos <= rd_end(spec_parse_params(buf, pos, n, acc)) <= buf.len(),
    decreases n,
{
    if n > 0 {
        let r = spec_parse_parameter(buf, pos)->Ok_0;
        lemma_parameter_bounds(buf, pos);
        lemma_params_bounds(buf, r.1, n - 1, acc.push(r.0));
    }
}

proof fn lemma_params_agree(buf1: Seq<u8>, buf2: Seq<u8>, pos: int, n: int, acc: Seq<ParameterView>)
    requires
        0 <= pos,
        spec_parse_params(buf1, pos, n, acc) is Ok,
        agree_to(buf1, buf2, rd_end(spec_parse_params(buf1, pos, n, acc))),
    ensures
        spec_parse_params(buf2, pos, n, acc) == spec_parse_params(buf1, pos, n, acc),
    decreases n,
{
    if n > 0 {
        let r = spec_parse_parameter(buf1, pos)->Ok_0;
        lemma_parameter_bounds(buf1, pos);
        lemma_params_bounds(buf1, r.1, n - 1, acc.push(r.0));
        lemma_parameter_agree(buf1, buf2, pos);
        lemma_params_agree(buf1, buf2, r.1, n - 1, acc.push(r.0));
    }
}

proof fn lemma_params_trunc(buf: Seq<u8>, pos: int, n: int, acc: Seq<ParameterView>, k: int)
    requires
        0 <= pos <= k,
        spec_parse_params(buf, pos, n, acc) is Ok,
        k < rd_end(spec_parse_params(buf, pos, n, acc)),
    ensures
        spec_parse_params(buf.take(k), pos, n, acc) == Err::<
            (Seq<ParameterView>, int),
            ParsingErrorView,
        >(ParsingErrorView::Incomplete),
    decreases n,
{
    let r = spec_parse_parameter(buf, pos)->Ok_0;
    lemma_parameter_bounds(buf, pos);
    lemma_params_bounds(buf, r.1, n - 1, acc.push(r.0));
    if k < r.1 {
        lemma_parameter_trunc(buf, pos, k);
    } else {
        lemma_parameter_agree(buf, buf.take(k), pos);
        lemma_params_trunc(buf, r.1, n - 1, acc.push(r.0), k);
    }
}

proof fn lemma_locations_bounds(buf: Seq<u8>, pos: int, n: int, acc: Seq<LocationView>)
    requires
        0 <= pos <= buf.len(),
        spec_parse_locations(buf, pos, n, acc) is Ok,
    ensures
        pos <= rd_end(spec_parse_locations(buf, pos, n, acc)) <= buf.len(),
    decreases n,
{
    if n > 0 {
        let r = spec_parse_location(buf, pos)->Ok_0;
        lemma_location_bounds(buf, pos);
        lemma_locations_bounds(buf, r.1, n - 1, acc.push(r.0));
    }
}

proof fn lemma_locations_agree(
    buf1: Seq<u8>,
    buf2: Seq<u8>,
    pos: int,
    n: int,
    acc: Seq<LocationView>,
)
    requires
        0 <= pos,
        spec_parse_locations(buf1, pos, n, acc) is Ok,
        agree_to(buf1, buf2, rd_end(spec_parse_locations(buf1, pos, n, acc))),
    ensures
        spec_parse_locations(buf2, pos, n, acc) == spec_parse_locations(buf1, pos, n, acc),
    decreases n,
{
    if n > 0 {
        let r = spec_parse_location(buf1, pos)->Ok_0;
        lemma_location_bounds(buf1, pos);
        lemma_locations_bounds(buf1, r.1, n - 1, acc.push(r.0));
        lemma_location_agree(buf1, buf2, pos);
        lemma_locations_agree(buf1, buf2, r.1, n - 1, acc.push(r.0));
    }
}

proof fn lemma_locations_trunc(buf: Seq<u8>, pos: int, n: int, acc: Seq<LocationView>, k: int)
    requires
        0 <= pos <= k,
        spec_parse_locations(buf, pos, n, acc) is Ok,
        k < rd_end(spec_parse_locations(buf, pos, n, acc)),
    ensures
        spec_parse_locations(buf.take(k), pos, n, acc) == Err::<
            (Seq<LocationView>, int),
            ParsingErrorView,
        >(ParsingErrorView::Incomplete),
    decreases n,
{
    let r = spec_parse_location(buf, pos)->Ok_0;
    lemma_location_bounds(buf, pos);
    lemma_locations_bounds(buf, r.1, n - 1, acc.push(r.0));
    if k < r.1 {
        lemma_location_trunc(buf, pos, k);
    } else {
        lemma_location_agree(buf, buf.take(k), pos);
        lemma_locations_trunc(buf, r.1, n - 1, acc.push(r.0), k);
    }
}

proof fn lemma_jumps_bounds(buf: Seq<u8>, pos: int, n: int, acc: Seq<JumpView>)
    requires
        0 <= pos <= buf.len(),
        spec_parse_jumps(buf, pos, n, acc) is Ok,
    ensures
        pos <= rd_end(spec_parse_jumps(buf, pos, n, acc)) <= buf.len(),
    decreases n,
{
    if n > 0 {
        let r = spec_parse_jump(buf, pos)->Ok_0;
        lemma_jump_bounds(buf, pos);
        lemma_jumps_bounds(buf, r.1, n - 1, acc.push(r.0));
    }
}

proof fn lemma_jumps_agree(buf1: Seq<u8>, buf2: Seq<u8>, pos: int, n: int, acc: Seq<JumpView>)
    requires
        0 <= pos,
        spec_parse_jumps(buf1, pos, n, acc) is Ok,
        agree_to(buf1, buf2, rd_end(spec_parse_jumps(buf1, pos, n, acc))),
    ensures
        spec_parse_jumps(buf2, pos, n, acc) == spec_parse_jumps(buf1, pos, n, acc),
    decreases n,
{
    if n > 0 {
        let r = spec_parse_jump(buf1, pos)->Ok_0;
        lemma_jump_bounds(buf1, pos);
        lemma_jumps_bounds(buf1, r.1, n - 1, acc.push(r.0));
        lemma_jump_agree(buf1, buf2, pos);
        lemma_jumps_agree(buf1, buf2, r.1, n - 1, acc.push(r.0));
    }
}

proof fn lemma_jumps_trunc(buf: Seq<u8>, pos: int, n: int, acc: Seq<JumpView>, k: int)
    requires
        0 <= pos <= k,
        spec_parse_jumps(buf, pos, n, acc) is Ok,
        k < rd_end(spec_parse_jumps(buf, pos, n, acc)),
    ensures
        spec_parse_jumps(buf.take(k), pos, n, acc) == Err::<
            (Seq<JumpView>, int),
            ParsingErrorView,
        >(ParsingErrorView::Incomplete),
    decreases n,
{
    let r = spec_parse_jump(buf, pos)->Ok_0;
    lemma_jump_bounds(buf, pos);
    lemma_jumps_bounds(buf, r.1, n - 1, acc.push(r.0));
    if k < r.1 {
        lemma_jump_trunc(buf, pos, k);
    } else {
        lemma_jump_agree(buf, buf.take(k), pos);
        lemma_jumps_trunc(buf, r.1, n - 1, acc.push(r.0), k);
    }
}

proof fn lemma_header_bounds(buf: Seq<u8>, pos: int)
    requires
        0 <= pos,
        spec_parse_header(buf, pos) is Ok,
    ensures
        pos <= rd_end(spec_parse_header(buf, pos)) <= buf.len(),
{
    reveal(spec_parse_header);
}

/// A successful document read depends only on the bytes below its end.
#[verifier::rlimit(100)]
#[verifier::spinoff_prover]
proof fn lemma_records_agree(buf1: Seq<u8>, buf2: Seq<u8>, pos: int)
    requires
        0 <= pos,
        spec_parse_quest_records(buf1, pos) is Ok,
        agree_to(buf1, buf2, rd_end(spec_parse_quest_records(buf1, pos))),
    ensures
        spec_parse_quest_records(buf2, pos) == spec_parse_quest_records(buf1, pos),
{
    let h = spec_parse_header(buf1, pos)->Ok_0;
    let pe = rd_end(spec_parse_params(buf1, h.1, h.0.parameters_count as int, Seq::empty()));
    let pr = rd_end(spec_parse_string_replacements(buf1, pe));
    let info = spec_parse_info(buf1, pr)->Ok_0;
    let pl = rd_end(
        spec_parse_locations(buf1, info.1, info.0.locations_count as int, Seq::empty()),
    );
    lemma_header_bounds(buf1, pos);
    lemma_params_bounds(buf1, h.1, h.0.parameters_count as int, Seq::empty());
    lemma_string_replacements_bounds(buf1, pe);
    lemma_info_bounds(buf1, pr);
    lemma_locations_bounds(buf1, info.1, info.0.locations_count as int, Seq::empty());
    lemma_jumps_bounds(buf1, pl, info.0.jumps_count as int, Seq::empty());
    lemma_header_agree(buf1, buf2, pos);
    lemma_params_agree(buf1, buf2, h.1, h.0.parameters_count as int, Seq::empty());
    lemma_string_replacements_agree(buf1, buf2, pe);
    lemma_info_agree(buf1, buf2, pr);
    lemma_locations_agree(buf1, buf2, info.1, info.0.locations_count as int, Seq::empty());
    lemma_jumps_agree(buf1, buf2, pl, info.0.jumps_count as int, Seq::empty());
}

/// A cut anywhere inside the records fails for want of bytes.
#[verifier::rlimit(100)]
#[verifier::spinoff_prover]
proof fn lemma_records_trunc(buf: Seq<u8>, pos: int, k: int)
    requires
        0 <= pos <= k,
        spec_parse_quest_records(buf, pos) is Ok,
        k < rd_end(spec_parse_quest_records(buf, pos)),
    ensures
        spec_parse_quest_records(buf.take(k), pos) == Err::<
            (QuestView, int),
            ParsingErrorView,
        >(ParsingErrorView::Incomplete),
{
    let cut = buf.take(k);
    let h = spec_parse_header(buf, pos)->Ok_0;
    let pe = rd_end(spec_parse_params(buf, h.1, h.0.parameters_count as int, Seq::empty()));
    let pr = rd_end(spec_parse_string_replacements(buf, pe));
    let info = spec_parse_info(buf, pr)->Ok_0;
    let pl = rd_end(
        spec_parse_locations(buf, info.1, info.0.locations_count as int, Seq::empty()),
    );
    lemma_header_bounds(buf, pos);
    lemma_params_bounds(buf, h.1, h.0.parameters_count as int, Seq::empty());
    lemma_string_replacements_bounds(buf, pe);
    lemma_info_bounds(buf, pr);
    lemma_locations_bounds(buf, info.1, info.0.locations_count as int, Seq::empty());
    lemma_jumps_bounds(buf, pl, info.0.jumps_count as int, Seq::empty());
    if k < h.1 {
        lemma_header_trunc(buf, pos, k);
    } else {
        lemma_header_agree(buf, cut, pos);
        if k < pe {
            lemma_params_trunc(buf, h.1, h.0.parameters_count as int, Seq::empty(), k);
        } else {
            lemma_params_agree(buf, cut, h.1, h.0.parameters_count as int, Seq::empty());
            if k < pr {
                lemma_string_replacements_trunc(buf, pe, k);
            } else {
                lemma_string_replacements_agree(buf, cut, pe);
                if k < info.1 {
                    lemma_info_trunc(buf, pr, k);
                } else {
                    lemma_info_agree(buf, cut, pr);
                    if k < pl {
                        lemma_locations_trunc(
                            buf,
                            info.1,
                            info.0.locations_count as int,
                            Seq::empty(),
                            k,
                        );
                    } else {
                        lemma_locations_agree(
                            buf,
                            cut,
                            info.1,
                            info.0.locations_count as int,
                            Seq::empty(),
                        );
                        lemma_jumps_trunc(buf, pl, info.0.jumps_count as int, Seq::empty(), k);
                    }
                }
            }
        }
    }
}

/// Appending any byte to a buffer the decoder accepts makes decoding fail as
/// trailing data: the records still end where they ended, and the extra byte
/// is left over.
pub proof fn lemma_quest_append_byte(buf: Seq<u8>, b: u8)
    requires
        spec_parse_quest(buf) is Ok,
    ensures
        spec_parse_quest(buf.push(b)) == Err::<QuestView, ParsingErrorView>(
            ParsingErrorView::ExpectedEnd,
        ),
{
    let grown = buf.push(b);
    assert(agree_to(buf, grown, buf.len() as int)) by {
        assert(forall|i: int| 0 <= i < buf.len() ==> buf[i] == #[trigger] grown[i]);
    }
    lemma_records_agree(buf, grown, 0);
}

/// Cutting any number of bytes off the end of a buffer the decoder accepts
/// makes decoding fail for want of bytes.
pub proof fn lemma_quest_truncation(buf: Seq<u8>, k: int)
    requires
        spec_parse_quest(buf) is Ok,
        0 <= k < buf.len(),
    ensures
        spec_parse_quest(buf.take(k)) == Err::<QuestView, ParsingErrorView>(
            ParsingErrorView::Incomplete,
        ),
{
    lemma_records_trunc(buf, 0, k);
    assert(buf.take(k).len() == k);
}

} // verus!

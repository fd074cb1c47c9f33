//! The laws the codec obeys, stated and proved over the models that the
//! encode and decode contracts use.

use vstd::prelude::*;
use vstd::utf8::is_ascii_chars;

use crate::fields::{field_max_len, field_utf16_allowed, flag_bit, is_str_index, is_u16_index};
use crate::parse::{
    spec_actual_span, spec_addr_valid_bit, spec_dec, spec_dpdm_bit, spec_expected_span,
    spec_low16, spec_reserved_bits_set,
};
use crate::record::{
    field_present, header_row, payload_len_upto, payload_upto, present_rows, record_flags,
    record_payload, record_rows, record_strings_ok, str_field, str_offset, str_rows_opt,
    total_rows, u16_field, RecordView,
};
use crate::strdef::{
    ascii_rows, utf16_units, lemma_strdef_word_fields, lemma_utf16_decode_encode, lemma_utf16_units_ascii,
    spec_decode_string_field, spec_unpack_bytes, str_char_count, str_row_count, str_rows, str_wf,
    strdef_count, strdef_is_utf16, strdef_offset, strdef_row_span, strdef_word, SpecStrDecode,
};
use crate::Warning;

verus! {

/// A record whose image round-trips: every present string fits the format
/// and its field, and the whole image fits the 255 rows the format can
/// address.
pub open spec fn encode_ok(r: RecordView) -> bool {
    &&& record_strings_ok(r)
    &&& total_rows(r) <= 255
}

/// One bit of a value above a remainder smaller than the bit's weight.
proof fn lemma_bit_extract(lo: int, b: int, hi: int, p: int)
    requires
        0 <= lo < p,
        0 <= b <= 1,
        hi >= 0,
        hi % (2 * p) == 0,
        p >= 1,
    ensures
        ((lo + b * p + hi) / p) % 2 == b,
{
    let q = hi / (2 * p);
    vstd::arithmetic::div_mod::lemma_fundamental_div_mod(hi, 2 * p);
    assert(hi == 2 * p * q);
    assert((lo + b * p + hi) == (b + 2 * q) * p + lo) by (nonlinear_arith)
        requires
            hi == 2 * p * q,
    ;
    vstd::arithmetic::div_mod::lemma_div_multiples_vanish_fancy(b + 2 * q, lo, p);
    assert(p * (b + 2 * q) == (b + 2 * q) * p);
    assert((lo + b * p + hi) / p == b + 2 * q);
    assert((b + 2 * q) % 2 == b);
}

// One quarter of the per-bit decomposition of the presence bitmap.
#[verifier::rlimit(100)]
proof fn lemma_flags_bits_a(r: RecordView)
    ensures
        forall|i: int|
            0 <= i < 4 ==> #[trigger] flag_bit(spec_low16(record_flags(r)), i) == field_present(
                r,
                i,
            ),
{
    let c = |j: int| -> int { if field_present(r, j) { 1int } else { 0int } };
    let s = c(0) * 0x1 + c(1) * 0x2 + c(2) * 0x4 + c(3) * 0x8 + c(4) * 0x10 + c(5) * 0x20 + c(6) * 0x40 + c(7) * 0x80 + c(8) * 0x100 + c(9) * 0x200 + c(10) * 0x400 + c(11) * 0x800 + c(12) * 0x1000 + c(13) * 0x2000 + c(14) * 0x4000 + c(15) * 0x8000;
    assert(0 <= s <= 0xFFFF);
    assert(record_flags(r) as int == s + 0x400000);
    let flags16 = spec_low16(record_flags(r));
    assert((s + 0x400000) % 0x10000 == s);
    assert(flags16 as int == s);
    assert forall|i: int| 0 <= i < 4 implies #[trigger] flag_bit(flags16, i) == field_present(
        r,
        i,
    ) by {
        if i == 0 {
            let t = c(0) * 0x1 + c(1) * 0x2 + c(2) * 0x4 + c(3) * 0x8 + c(4) * 0x10 + c(5) * 0x20 + c(6) * 0x40 + c(7) * 0x80 + c(8) * 0x100 + c(9) * 0x200 + c(10) * 0x400 + c(11) * 0x800 + c(12) * 0x1000 + c(13) * 0x2000 + c(14) * 0x4000 + c(15) * 0x8000;
            let lo = 0;
            assert(s == t * 0x1 + lo);
            assert(0 <= lo < 0x1);
            vstd::arithmetic::div_mod::lemma_div_multiples_vanish_fancy(t, lo, 0x1);
            assert(0x1 * t == t * 0x1);
            assert(s / 0x1 == t);
            assert(t % 2 == c(0));
        } else if i == 1 {
            let t = c(1) * 0x1 + c(2) * 0x2 + c(3) * 0x4 + c(4) * 0x8 + c(5) * 0x10 + c(6) * 0x20 + c(7) * 0x40 + c(8) * 0x80 + c(9) * 0x100 + c(10) * 0x200 + c(11) * 0x400 + c(12) * 0x800 + c(13) * 0x1000 + c(14) * 0x2000 + c(15) * 0x4000;
            let lo = c(0) * 0x1;
            assert(s == t * 0x2 + lo);
            assert(0 <= lo < 0x2);
            vstd::arithmetic::div_mod::lemma_div_multiples_vanish_fancy(t, lo, 0x2);
            assert(0x2 * t == t * 0x2);
            assert(s / 0x2 == t);
            assert(t % 2 == c(1));
        } else if i == 2 {
            let t = c(2) * 0x1 + c(3) * 0x2 + c(4) * 0x4 + c(5) * 0x8 + c(6) * 0x10 + c(7) * 0x20 + c(8) * 0x40 + c(9) * 0x80 + c(10) * 0x100 + c(11) * 0x200 + c(12) * 0x400 + c(13) * 0x800 + c(14) * 0x1000 + c(15) * 0x2000;
            let lo = c(0) * 0x1 + c(1) * 0x2;
            assert(s == t * 0x4 + lo);
            assert(0 <= lo < 0x4);
            vstd::arithmetic::div_mod::lemma_div_multiples_vanish_fancy(t, lo, 0x4);
            assert(0x4 * t == t * 0x4);
            assert(s / 0x4 == t);
            assert(t % 2 == c(2));
        } else if i == 3 {
            let t = c(3) * 0x1 + c(4) * 0x2 + c(5) * 0x4 + c(6) * 0x8 + c(7) * 0x10 + c(8) * 0x20 + c(9) * 0x40 + c(10) * 0x80 + c(11) * 0x100 + c(12) * 0x200 + c(13) * 0x400 + c(14) * 0x800 + c(15) * 0x1000;
            let lo = c(0) * 0x1 + c(1) * 0x2 + c(2) * 0x4;
            assert(s == t * 0x8 + lo);
            assert(0 <= lo < 0x8);
            vstd::arithmetic::div_mod::lemma_div_multiples_vanish_fancy(t, lo, 0x8);
            assert(0x8 * t == t * 0x8);
            assert(s / 0x8 == t);
            assert(t % 2 == c(3));
        }
    }
}

// One quarter of the per-bit decomposition of the presence bitmap.
#[verifier::rlimit(100)]
proof fn lemma_flags_bits_b(r: RecordView)
    ensures
        forall|i: int|
            4 <= i < 8 ==> #[trigger] flag_bit(spec_low16(record_flags(r)), i) == field_present(
                r,
                i,
            ),
{
    let c = |j: int| -> int { if field_present(r, j) { 1int } else { 0int } };
    let s = c(0) * 0x1 + c(1) * 0x2 + c(2) * 0x4 + c(3) * 0x8 + c(4) * 0x10 + c(5) * 0x20 + c(6) * 0x40 + c(7) * 0x80 + c(8) * 0x100 + c(9) * 0x200 + c(10) * 0x400 + c(11) * 0x800 + c(12) * 0x1000 + c(13) * 0x2000 + c(14) * 0x4000 + c(15) * 0x8000;
    assert(0 <= s <= 0xFFFF);
    assert(record_flags(r) as int == s + 0x400000);
    let flags16 = spec_low16(record_flags(r));
    assert((s + 0x400000) % 0x10000 == s);
    assert(flags16 as int == s);
    assert forall|i: int| 4 <= i < 8 implies #[trigger] flag_bit(flags16, i) == field_present(
        r,
        i,
    ) by {
        if i == 4 {
            let t = c(4) * 0x1 + c(5) * 0x2 + c(6) * 0x4 + c(7) * 0x8 + c(8) * 0x10 + c(9) * 0x20 + c(10) * 0x40 + c(11) * 0x80 + c(12) * 0x100 + c(13) * 0x200 + c(14) * 0x400 + c(15) * 0x800;
            let lo = c(0) * 0x1 + c(1) * 0x2 + c(2) * 0x4 + c(3) * 0x8;
            assert(s == t * 0x10 + lo);
            assert(0 <= lo < 0x10);
            vstd::arithmetic::div_mod::lemma_div_multiples_vanish_fancy(t, lo, 0x10);
            assert(0x10 * t == t * 0x10);
            assert(s / 0x10 == t);
            assert(t % 2 == c(4));
        } else if i == 5 {
            let t = c(5) * 0x1 + c(6) * 0x2 + c(7) * 0x4 + c(8) * 0x8 + c(9) * 0x10 + c(10) * 0x20 + c(11) * 0x40 + c(12) * 0x80 + c(13) * 0x100 + c(14) * 0x200 + c(15) * 0x400;
            let lo = c(0) * 0x1 + c(1) * 0x2 + c(2) * 0x4 + c(3) * 0x8 + c(4) * 0x10;
            assert(s == t * 0x20 + lo);
            assert(0 <= lo < 0x20);
            vstd::arithmetic::div_mod::lemma_div_multiples_vanish_fancy(t, lo, 0x20);
            assert(0x20 * t == t * 0x20);
            assert(s / 0x20 == t);
            assert(t % 2 == c(5));
        } else if i == 6 {
            let t = c(6) * 0x1 + c(7) * 0x2 + c(8) * 0x4 + c(9) * 0x8 + c(10) * 0x10 + c(11) * 0x20 + c(12) * 0x40 + c(13) * 0x80 + c(14) * 0x100 + c(15) * 0x200;
            let lo = c(0) * 0x1 + c(1) * 0x2 + c(2) * 0x4 + c(3) * 0x8 + c(4) * 0x10 + c(5) * 0x20;
            assert(s == t * 0x40 + lo);
            assert(0 <= lo < 0x40);
            vstd::arithmetic::div_mod::lemma_div_multiples_vanish_fancy(t, lo, 0x40);
            assert(0x40 * t == t * 0x40);
            assert(s / 0x40 == t);
            assert(t % 2 == c(6));
        } else if i == 7 {
            let t = c(7) * 0x1 + c(8) * 0x2 + c(9) * 0x4 + c(10) * 0x8 + c(11) * 0x10 + c(12) * 0x20 + c(13) * 0x40 + c(14) * 0x80 + c(15) * 0x100;
            let lo = c(0) * 0x1 + c(1) * 0x2 + c(2) * 0x4 + c(3) * 0x8 + c(4) * 0x10 + c(5) * 0x20 + c(6) * 0x40;
            assert(s == t * 0x80 + lo);
            assert(0 <= lo < 0x80);
            vstd::arithmetic::div_mod::lemma_div_multiples_vanish_fancy(t, lo, 0x80);
            assert(0x80 * t == t * 0x80);
            assert(s / 0x80 == t);
            assert(t % 2 == c(7));
        }
    }
}

// One quarter of the per-bit decomposition of the presence bitmap.
#[verifier::rlimit(100)]
proof fn lemma_flags_bits_c(r: RecordView)
    ensures
        forall|i: int|
            8 <= i < 12 ==> #[trigger] flag_bit(spec_low16(record_flags(r)), i) == field_present(
                r,
                i,
            ),
{
    let c = |j: int| -> int { if field_present(r, j) { 1int } else { 0int } };
    let s = c(0) * 0x1 + c(1) * 0x2 + c(2) * 0x4 + c(3) * 0x8 + c(4) * 0x10 + c(5) * 0x20 + c(6) * 0x40 + c(7) * 0x80 + c(8) * 0x100 + c(9) * 0x200 + c(10) * 0x400 + c(11) * 0x800 + c(12) * 0x1000 + c(13) * 0x2000 + c(14) * 0x4000 + c(15) * 0x8000;
    assert(0 <= s <= 0xFFFF);
    assert(record_flags(r) as int == s + 0x400000);
    let flags16 = spec_low16(record_flags(r));
    assert((s + 0x400000) % 0x10000 == s);
    assert(flags16 as int == s);
    assert forall|i: int| 8 <= i < 12 implies #[trigger] flag_bit(flags16, i) == field_present(
        r,
        i,
    ) by {
        if i == 8 {
            let t = c(8) * 0x1 + c(9) * 0x2 + c(10) * 0x4 + c(11) * 0x8 + c(12) * 0x10 + c(13) * 0x20 + c(14) * 0x40 + c(15) * 0x80;
            let lo = c(0) * 0x1 + c(1) * 0x2 + c(2) * 0x4 + c(3) * 0x8 + c(4) * 0x10 + c(5) * 0x20 + c(6) * 0x40 + c(7) * 0x80;
            assert(s == t * 0x100 + lo);
            assert(0 <= lo < 0x100);
            vstd::arithmetic::div_mod::lemma_div_multiples_vanish_fancy(t, lo, 0x100);
            assert(0x100 * t == t * 0x100);
            assert(s / 0x100 == t);
            assert(t % 2 == c(8));
        } else if i == 9 {
            let t = c(9) * 0x1 + c(10) * 0x2 + c(11) * 0x4 + c(12) * 0x8 + c(13) * 0x10 + c(14) * 0x20 + c(15) * 0x40;
            let lo = c(0) * 0x1 + c(1) * 0x2 + c(2) * 0x4 + c(3) * 0x8 + c(4) * 0x10 + c(5) * 0x20 + c(6) * 0x40 + c(7) * 0x80 + c(8) * 0x100;
            assert(s == t * 0x200 + lo);
            assert(0 <= lo < 0x200);
            vstd::arithmetic::div_mod::lemma_div_multiples_vanish_fancy(t, lo, 0x200);
            assert(0x200 * t == t * 0x200);
            assert(s / 0x200 == t);
            assert(t % 2 == c(9));
        } else if i == 10 {
            let t = c(10) * 0x1 + c(11) * 0x2 + c(12) * 0x4 + c(13) * 0x8 + c(14) * 0x10 + c(15) * 0x20;
            let lo = c(0) * 0x1 + c(1) * 0x2 + c(2) * 0x4 + c(3) * 0x8 + c(4) * 0x10 + c(5) * 0x20 + c(6) * 0x40 + c(7) * 0x80 + c(8) * 0x100 + c(9) * 0x200;
            assert(s == t * 0x400 + lo);
            assert(0 <= lo < 0x400);
            vstd::arithmetic::div_mod::lemma_div_multiples_vanish_fancy(t, lo, 0x400);
            assert(0x400 * t == t * 0x400);
            assert(s / 0x400 == t);
            assert(t % 2 == c(10));
        } else if i == 11 {
            let t = c(11) * 0x1 + c(12) * 0x2 + c(13) * 0x4 + c(14) * 0x8 + c(15) * 0x10;
            let lo = c(0) * 0x1 + c(1) * 0x2 + c(2) * 0x4 + c(3) * 0x8 + c(4) * 0x10 + c(5) * 0x20 + c(6) * 0x40 + c(7) * 0x80 + c(8) * 0x100 + c(9) * 0x200 + c(10) * 0x400;
            assert(s == t * 0x800 + lo);
            assert(0 <= lo < 0x800);
            vstd::arithmetic::div_mod::lemma_div_multiples_vanish_fancy(t, lo, 0x800);
            assert(0x800 * t == t * 0x800);
            assert(s / 0x800 == t);
            assert(t % 2 == c(11));
        }
    }
}

// One quarter of the per-bit decomposition of the presence bitmap.
#[verifier::rlimit(100)]
proof fn lemma_flags_bits_d(r: RecordView)
    ensures
        forall|i: int|
            12 <= i < 16 ==> #[trigger] flag_bit(spec_low16(record_flags(r)), i) == field_present(
                r,
                i,
            ),
{
    let c = |j: int| -> int { if field_present(r, j) { 1int } else { 0int } };
    let s = c(0) * 0x1 + c(1) * 0x2 + c(2) * 0x4 + c(3) * 0x8 + c(4) * 0x10 + c(5) * 0x20 + c(6) * 0x40 + c(7) * 0x80 + c(8) * 0x100 + c(9) * 0x200 + c(10) * 0x400 + c(11) * 0x800 + c(12) * 0x1000 + c(13) * 0x2000 + c(14) * 0x4000 + c(15) * 0x8000;
    assert(0 <= s <= 0xFFFF);
    assert(record_flags(r) as int == s + 0x400000);
    let flags16 = spec_low16(record_flags(r));
    assert((s + 0x400000) % 0x10000 == s);
    assert(flags16 as int == s);
    assert forall|i: int| 12 <= i < 16 implies #[trigger] flag_bit(flags16, i) == field_present(
        r,
        i,
    ) by {
        if i == 12 {
            let t = c(12) * 0x1 + c(13) * 0x2 + c(14) * 0x4 + c(15) * 0x8;
            let lo = c(0) * 0x1 + c(1) * 0x2 + c(2) * 0x4 + c(3) * 0x8 + c(4) * 0x10 + c(5) * 0x20 + c(6) * 0x40 + c(7) * 0x80 + c(8) * 0x100 + c(9) * 0x200 + c(10) * 0x400 + c(11) * 0x800;
            assert(s == t * 0x1000 + lo);
            assert(0 <= lo < 0x1000);
            vstd::arithmetic::div_mod::lemma_div_multiples_vanish_fancy(t, lo, 0x1000);
            assert(0x1000 * t == t * 0x1000);
            assert(s / 0x1000 == t);
            assert(t % 2 == c(12));
        } else if i == 13 {
            let t = c(13) * 0x1 + c(14) * 0x2 + c(15) * 0x4;
            let lo = c(0) * 0x1 + c(1) * 0x2 + c(2) * 0x4 + c(3) * 0x8 + c(4) * 0x10 + c(5) * 0x20 + c(6) * 0x40 + c(7) * 0x80 + c(8) * 0x100 + c(9) * 0x200 + c(10) * 0x400 + c(11) * 0x800 + c(12) * 0x1000;
            assert(s == t * 0x2000 + lo);
            assert(0 <= lo < 0x2000);
            vstd::arithmetic::div_mod::lemma_div_multiples_vanish_fancy(t, lo, 0x2000);
            assert(0x2000 * t == t * 0x2000);
            assert(s / 0x2000 == t);
            assert(t % 2 == c(13));
        } else if i == 14 {
            let t = c(14) * 0x1 + c(15) * 0x2;
            let lo = c(0) * 0x1 + c(1) * 0x2 + c(2) * 0x4 + c(3) * 0x8 + c(4) * 0x10 + c(5) * 0x20 + c(6) * 0x40 + c(7) * 0x80 + c(8) * 0x100 + c(9) * 0x200 + c(10) * 0x400 + c(11) * 0x800 + c(12) * 0x1000 + c(13) * 0x2000;
            assert(s == t * 0x4000 + lo);
            assert(0 <= lo < 0x4000);
            vstd::arithmetic::div_mod::lemma_div_multiples_vanish_fancy(t, lo, 0x4000);
            assert(0x4000 * t == t * 0x4000);
            assert(s / 0x4000 == t);
            assert(t % 2 == c(14));
        } else if i == 15 {
            let t = c(15) * 0x1;
            let lo = c(0) * 0x1 + c(1) * 0x2 + c(2) * 0x4 + c(3) * 0x8 + c(4) * 0x10 + c(5) * 0x20 + c(6) * 0x40 + c(7) * 0x80 + c(8) * 0x100 + c(9) * 0x200 + c(10) * 0x400 + c(11) * 0x800 + c(12) * 0x1000 + c(13) * 0x2000 + c(14) * 0x4000;
            assert(s == t * 0x8000 + lo);
            assert(0 <= lo < 0x8000);
            vstd::arithmetic::div_mod::lemma_div_multiples_vanish_fancy(t, lo, 0x8000);
            assert(0x8000 * t == t * 0x8000);
            assert(s / 0x8000 == t);
            assert(t % 2 == c(15));
        }
    }
}

/// The presence bitmap of a record decomposes exactly: the address-valid
/// bit is set, the indicator and reserved bits are clear, and bit `i` of
/// the low half mirrors the presence of field `i`.
pub proof fn lemma_record_flags_bits(r: RecordView)
    ensures
        spec_addr_valid_bit(record_flags(r)),
        !spec_dpdm_bit(record_flags(r)),
        !spec_reserved_bits_set(record_flags(r)),
        forall|i: int|
            0 <= i < 16 ==> #[trigger] flag_bit(spec_low16(record_flags(r)), i) == field_present(
                r,
                i,
            ),
{
    let c = |j: int| -> int { if field_present(r, j) { 1int } else { 0int } };
    let s = c(0) * 0x1 + c(1) * 0x2 + c(2) * 0x4 + c(3) * 0x8 + c(4) * 0x10 + c(5) * 0x20 + c(6) * 0x40 + c(7) * 0x80 + c(8) * 0x100 + c(9) * 0x200 + c(10) * 0x400 + c(11) * 0x800 + c(12) * 0x1000 + c(13) * 0x2000 + c(14) * 0x4000 + c(15) * 0x8000;
    assert(0 <= s <= 0xFFFF);
    assert(record_flags(r) as int == s + 0x400000);
    let flags16 = spec_low16(record_flags(r));
    assert((s + 0x400000) % 0x10000 == s);
    assert(flags16 as int == s);
    let f = s + 0x400000;
    assert((f / 0x400000) % 2 == 1) by {
        lemma_bit_extract(s, 1, 0, 0x400000);
    }
    assert((f / 0x800000) % 2 == 0) by {
        lemma_bit_extract(s + 0x400000, 0, 0, 0x800000);
    }
    assert((f / 0x10000) % 64 == 0 && f / 0x1000000 == 0);
    lemma_flags_bits_a(r);
    lemma_flags_bits_b(r);
    lemma_flags_bits_c(r);
    lemma_flags_bits_d(r);
}

/// In the image of a record, the slice a present string's descriptor
/// points at is exactly that string's data rows.
#[verifier::rlimit(100)]
proof fn lemma_payload_slice(r: RecordView, i: int)
    requires
        is_str_index(i),
    ensures
        payload_len_upto(r, i) >= 0,
        payload_len_upto(r, i) + present_rows(r, i) <= payload_len_upto(r, 16),
        record_payload(r).len() == payload_len_upto(r, 16),
        record_payload(r).subrange(
            payload_len_upto(r, i),
            payload_len_upto(r, i) + present_rows(r, i),
        ) == str_rows_opt(r, i),
{
    assert(record_payload(r).len() == payload_len_upto(r, 16));
    if i == 4 {
        assert(record_payload(r).subrange(
            payload_len_upto(r, 4),
            payload_len_upto(r, 4) + present_rows(r, 4),
        ) =~= str_rows_opt(r, 4));
    } else if i == 5 {
        assert(record_payload(r).subrange(
            payload_len_upto(r, 5),
            payload_len_upto(r, 5) + present_rows(r, 5),
        ) =~= str_rows_opt(r, 5));
    } else if i == 6 {
        assert(record_payload(r).subrange(
            payload_len_upto(r, 6),
            payload_len_upto(r, 6) + present_rows(r, 6),
        ) =~= str_rows_opt(r, 6));
    } else if i == 8 {
        assert(record_payload(r).subrange(
            payload_len_upto(r, 8),
            payload_len_upto(r, 8) + present_rows(r, 8),
        ) =~= str_rows_opt(r, 8));
    } else if i == 9 {
        assert(record_payload(r).subrange(
            payload_len_upto(r, 9),
            payload_len_upto(r, 9) + present_rows(r, 9),
        ) =~= str_rows_opt(r, 9));
    } else if i == 10 {
        assert(record_payload(r).subrange(
            payload_len_upto(r, 10),
            payload_len_upto(r, 10) + present_rows(r, 10),
        ) =~= str_rows_opt(r, 10));
    } else if i == 11 {
        assert(record_payload(r).subrange(
            payload_len_upto(r, 11),
            payload_len_upto(r, 11) + present_rows(r, 11),
        ) =~= str_rows_opt(r, 11));
    } else if i == 12 {
        assert(record_payload(r).subrange(
            payload_len_upto(r, 12),
            payload_len_upto(r, 12) + present_rows(r, 12),
        ) =~= str_rows_opt(r, 12));
    } else if i == 13 {
        assert(record_payload(r).subrange(
            payload_len_upto(r, 13),
            payload_len_upto(r, 13) + present_rows(r, 13),
        ) =~= str_rows_opt(r, 13));
    } else if i == 14 {
        assert(record_payload(r).subrange(
            payload_len_upto(r, 14),
            payload_len_upto(r, 14) + present_rows(r, 14),
        ) =~= str_rows_opt(r, 14));
    } else if i == 15 {
        assert(record_payload(r).subrange(
            payload_len_upto(r, 15),
            payload_len_upto(r, 15) + present_rows(r, 15),
        ) =~= str_rows_opt(r, 15));
    }
}

/// Unpacking the packed rows of an ASCII string hands back its bytes, with
/// zero padding, and mapping those bytes to characters restores the text.
proof fn lemma_ascii_pack_unpack(s: Seq<char>)
    requires
        is_ascii_chars(s),
    ensures
        ({
            let bytes = spec_unpack_bytes(ascii_rows(s));
            &&& bytes.len() == 2 * ((s.len() + 1) / 2)
            &&& bytes.len() >= s.len()
            &&& forall|k: int| 0 <= k < s.len() ==> #[trigger] bytes[k] as int == s[k] as u32
            &&& forall|k: int| s.len() <= k < bytes.len() ==> #[trigger] bytes[k] == 0
            &&& bytes.take(s.len() as int).map_values(|b: u8| (b as u32) as char) == s
        }),
{
    let rows = ascii_rows(s);
    let bytes = spec_unpack_bytes(rows);
    assert(bytes.len() == 2 * ((s.len() + 1) / 2));
    assert forall|k: int| 0 <= k < bytes.len() implies #[trigger] bytes[k] as int == (if k < s.len() {
        s[k] as u32 as int
    } else {
        0int
    }) by {
        let j = k / 2;
        assert(0 <= j < rows.len());
        let lo = s[2 * j] as u32 as int;
        let hi: int = if 2 * j + 1 < s.len() {
            s[2 * j + 1] as u32 as int
        } else {
            0int
        };
        assert('\0' <= s[2 * j] <= '\u{7f}');
        assert(0 <= lo < 128);
        if 2 * j + 1 < s.len() {
            assert('\0' <= s[2 * j + 1] <= '\u{7f}');
        }
        assert(0 <= hi < 128);
        assert(rows[j] as int == lo + 256 * hi);
        assert((lo + 256 * hi) % 256 == lo);
        assert((lo + 256 * hi) / 256 == hi);
        if k % 2 == 0 {
            assert(k == 2 * j);
            assert(bytes[k] as int == lo);
        } else {
            assert(k == 2 * j + 1);
            assert(bytes[k] as int == hi);
        }
    }
    assert forall|k: int| 0 <= k < s.len() implies bytes.take(s.len() as int).map_values(
        |b: u8| (b as u32) as char,
    )[k] == #[trigger] s[k] by {
        assert(bytes[k] as int == s[k] as u32);
        vstd::utf8::char_u32_cast(s[k], s[k] as u32);
        assert((bytes[k] as u32) == s[k] as u32);
    }
    assert(bytes.take(s.len() as int).map_values(|b: u8| (b as u32) as char) =~= s);
}

/// Shared facts about a present string field in a record's own image: its
/// descriptor word decomposes into its own offset, count and encoding, and
/// the slice the descriptor points at is its own data rows.
#[verifier::rlimit(100)]
#[verifier::spinoff_prover]
proof fn lemma_roundtrip_present_common(r: RecordView, i: int)
    requires
        encode_ok(r),
        is_str_index(i),
        str_field(r, i) is Some,
    ensures
        ({
            let rows = record_rows(r);
            let s = str_field(r, i)->0;
            let off = str_offset(r, i);
            let h = rows[i];
            &&& rows.len() == total_rows(r)
            &&& 16 <= off <= 255
            &&& off + str_row_count(s) <= rows.len()
            &&& h == strdef_word(s, off)
            &&& h != 0
            &&& strdef_offset(h) == off
            &&& strdef_count(h) == str_char_count(s)
            &&& strdef_is_utf16(h) == !is_ascii_chars(s)
            &&& strdef_row_span(h) == str_row_count(s)
            &&& rows.subrange(off, off + str_row_count(s)) == str_rows(s)
            &&& str_wf(s)
            &&& str_char_count(s) <= field_max_len(i)
            &&& (!field_utf16_allowed(i) ==> is_ascii_chars(s))
        }),
{
    let rows = record_rows(r);
    let s = str_field(r, i)->0;
    let off = str_offset(r, i);
    lemma_payload_slice(r, i);
    lemma_payload_slice(r, 15);
    assert(payload_len_upto(r, 16) == payload_len_upto(r, 15) + present_rows(r, 15));
    assert(rows.len() == total_rows(r));
    assert(rows[i] == header_row(r, i));
    assert(present_rows(r, i) == str_row_count(s));
    assert(16 <= off);
    assert(off + str_row_count(s) <= total_rows(r));
    let h = strdef_word(s, off);
    lemma_strdef_word_fields(s, off);
    assert(h as int == off * 256 + (if !is_ascii_chars(s) {
        128int
    } else {
        0int
    }) + str_char_count(s));
    assert(h != 0);
    let body = rows.subrange(off, off + str_row_count(s));
    assert(body =~= record_payload(r).subrange(
        payload_len_upto(r, i),
        payload_len_upto(r, i) + present_rows(r, i),
    ));
    assert(body == str_rows(s));
}

/// Decoding an absent string field of a record's own image yields nothing
/// and no warnings.
#[verifier::rlimit(100)]
#[verifier::spinoff_prover]
proof fn lemma_roundtrip_absent(r: RecordView, i: int)
    requires
        is_str_index(i),
        str_field(r, i) is None,
        !flag_bit(spec_low16(record_flags(r)), i),
    ensures
        spec_dec(record_rows(r), spec_low16(record_flags(r)), i) == (SpecStrDecode {
            value: None,
            warnings: Seq::<Warning>::empty(),
        }),
{
    reveal(spec_decode_string_field);
    let rows = record_rows(r);
    assert(rows[i] == header_row(r, i));
    assert(header_row(r, i) == 0);
    assert(spec_dec(rows, spec_low16(record_flags(r)), i) =~= (SpecStrDecode {
        value: None,
        warnings: Seq::<Warning>::empty(),
    }));
}

/// Decoding a present UTF-16 string field of a record's own image recovers
/// exactly its value, with no warnings.
#[verifier::rlimit(100)]
#[verifier::spinoff_prover]
proof fn lemma_roundtrip_utf16(r: RecordView, i: int)
    requires
        encode_ok(r),
        is_str_index(i),
        str_field(r, i) is Some,
        !is_ascii_chars(str_field(r, i)->0),
        flag_bit(spec_low16(record_flags(r)), i),
    ensures
        spec_dec(record_rows(r), spec_low16(record_flags(r)), i) == (SpecStrDecode {
            value: str_field(r, i),
            warnings: Seq::<Warning>::empty(),
        }),
{
    reveal(spec_decode_string_field);
    lemma_roundtrip_present_common(r, i);
    let rows = record_rows(r);
    let s = str_field(r, i)->0;
    assert(field_utf16_allowed(i));
    lemma_utf16_decode_encode(s);
    assert(rows.subrange(str_offset(r, i), str_offset(r, i) + str_row_count(s)) == utf16_units(s));
    assert(crate::strdef::spec_len_warn(s, i) =~= Seq::<Warning>::empty());
    assert(Seq::<Warning>::empty() + Seq::<Warning>::empty() =~= Seq::<Warning>::empty());
    assert(spec_dec(rows, spec_low16(record_flags(r)), i) =~= (SpecStrDecode {
        value: Some(s),
        warnings: Seq::<Warning>::empty(),
    }));
}


/// Decoding a present ASCII string field of a record's own image recovers
/// exactly its value, with no warnings.
#[verifier::rlimit(100)]
#[verifier::spinoff_prover]
proof fn lemma_roundtrip_ascii(r: RecordView, i: int)
    requires
        encode_ok(r),
        is_str_index(i),
        str_field(r, i) is Some,
        is_ascii_chars(str_field(r, i)->0),
        flag_bit(spec_low16(record_flags(r)), i),
    ensures
        spec_dec(record_rows(r), spec_low16(record_flags(r)), i) == (SpecStrDecode {
            value: str_field(r, i),
            warnings: Seq::<Warning>::empty(),
        }),
{
    reveal(spec_decode_string_field);
    lemma_roundtrip_present_common(r, i);
    let rows = record_rows(r);
    let s = str_field(r, i)->0;
    let cnt = str_char_count(s);
    lemma_utf16_units_ascii(s);
    assert(cnt == s.len());
    lemma_ascii_pack_unpack(s);
    let body = rows.subrange(str_offset(r, i), str_offset(r, i) + str_row_count(s));
    assert(body == ascii_rows(s));
    let bytes = spec_unpack_bytes(body);
    assert(bytes =~= spec_unpack_bytes(ascii_rows(s)));
    assert(forall|k: int| cnt <= k < bytes.len() ==> #[trigger] bytes[k] == 0);
    assert(forall|k: int| 0 <= k < cnt ==> #[trigger] bytes[k] < 0x80);
    let data = bytes.take(cnt);
    assert(forall|k: int| 0 <= k < cnt ==> #[trigger] data[k] < 0x80);
    assert(data =~= bytes.take(s.len() as int));
    assert(data.map_values(|b: u8| (b as u32) as char) == s);
    assert(crate::strdef::spec_len_warn(s, i) =~= Seq::<Warning>::empty());
    assert(Seq::<Warning>::empty() + Seq::<Warning>::empty() =~= Seq::<Warning>::empty());
    assert((Seq::<Warning>::empty() + Seq::<Warning>::empty()) + Seq::<Warning>::empty()
        =~= Seq::<Warning>::empty());
    assert(spec_dec(rows, spec_low16(record_flags(r)), i) =~= (SpecStrDecode {
        value: Some(s),
        warnings: Seq::<Warning>::empty(),
    }));
}


/// Round trip, field by field: decoding any field of a record's own
/// image, under the record's own presence bitmap, recovers exactly that
/// field's value, with no warnings.
pub proof fn lemma_roundtrip_string_field(r: RecordView, i: int)
    requires
        encode_ok(r),
        is_str_index(i),
        flag_bit(spec_low16(record_flags(r)), i) == field_present(r, i),
    ensures
        spec_dec(record_rows(r), spec_low16(record_flags(r)), i) == (SpecStrDecode {
            value: str_field(r, i),
            warnings: Seq::<Warning>::empty(),
        }),
{
    match str_field(r, i) {
        None => {
            lemma_roundtrip_absent(r, i);
        },
        Some(s) => {
            if is_ascii_chars(s) {
                lemma_roundtrip_ascii(r, i);
            } else {
                lemma_roundtrip_utf16(r, i);
            }
        },
    }
}


/// Round trip, layout: the span the descriptors of a record's own image
/// announce, and the span its decoded strings would occupy again, both
/// equal the image's payload exactly.
#[verifier::rlimit(100)]
#[verifier::spinoff_prover]
pub proof fn lemma_roundtrip_spans(r: RecordView)
    requires
        encode_ok(r),
        forall|i: int|
            0 <= i < 16 ==> #[trigger] flag_bit(spec_low16(record_flags(r)), i) == field_present(
                r,
                i,
            ),
    ensures
        spec_expected_span(record_rows(r), spec_low16(record_flags(r))) == payload_len_upto(r, 16),
        spec_actual_span(record_rows(r), spec_low16(record_flags(r))) == payload_len_upto(r, 16),
{
    let rows = record_rows(r);
    let flags16 = spec_low16(record_flags(r));
    assert forall|i: int| is_str_index(i) implies #[trigger] crate::parse::spec_span_term(
        rows,
        flags16,
        i,
    ) == present_rows(r, i) by {
        assert(rows[i] == header_row(r, i));
        if field_present(r, i) {
            lemma_roundtrip_present_common(r, i);
        }
    }
    assert forall|i: int| is_str_index(i) implies #[trigger] crate::parse::spec_actual_term(
        rows,
        flags16,
        i,
    ) == present_rows(r, i) by {
        lemma_roundtrip_string_field(r, i);
        if field_present(r, i) {
            lemma_roundtrip_present_common(r, i);
        }
    }
}


/// Row-count law: the image is the 16-row header plus, for each present
/// string, half its character count rounded up when ASCII, its full
/// character count when UTF-16.
pub proof fn lemma_row_count_law(r: RecordView)
    ensures
        total_rows(r) == 16 + payload_len_upto(r, 16),
        forall|i: int|
            is_str_index(i) && #[trigger] str_field(r, i) is Some ==> present_rows(r, i) == (
            if is_ascii_chars(str_field(r, i)->0) {
                (str_char_count(str_field(r, i)->0) + 1) / 2
            } else {
                str_char_count(str_field(r, i)->0)
            }),
        forall|i: int|
            is_str_index(i) && #[trigger] str_field(r, i) is None ==> present_rows(r, i) == 0,
{
    assert forall|i: int| is_str_index(i) && #[trigger] str_field(r, i) is Some implies present_rows(
        r,
        i,
    ) == (if is_ascii_chars(str_field(r, i)->0) {
        (str_char_count(str_field(r, i)->0) + 1) / 2
    } else {
        str_char_count(str_field(r, i)->0)
    }) by {
        let s = str_field(r, i)->0;
        if is_ascii_chars(s) {
            lemma_utf16_units_ascii(s);
        }
    }
}

} // verus!

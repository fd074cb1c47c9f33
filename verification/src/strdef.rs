//! The STRDEF string sub-format: a single Unicode string stored as a compact
//! descriptor word plus a variable number of 16-bit data rows.
//!
//! An ASCII string is packed two bytes per row, first character in the low
//! byte, with a zero pad byte when its length is odd.  Any other string is
//! stored as raw UTF-16, one code unit per row, surrogate pairs in natural
//! order.  The descriptor word holds the character count (UTF-16 code units)
//! in bits 0-6, the encoding flag in bit 7 and the row offset of the data in
//! bits 8-15.

use vstd::prelude::*;
use vstd::string::StrSliceExecFns;
use vstd::utf8::is_ascii_chars;
use vstd::utf8::is_scalar;

use crate::fields::{field_max_len, flag_bit, flag_bit_set, is_str_index, Field};
use crate::record::opt_str_view;
use crate::{Error, Warning};

verus! {

/// Number of UTF-16 code units the character occupies.
pub open spec fn char_utf16_len(c: char) -> int {
    if (c as u32) < 0x10000 {
        1int
    } else {
        2int
    }
}

/// The UTF-16 code units of one character: the code point itself for the
/// basic plane, a surrogate pair above it.
pub open spec fn utf16_units_of_char(c: char) -> Seq<u16> {
    if (c as u32) < 0x10000 {
        seq![(c as u32) as u16]
    } else {
        seq![
            (0xD800 + ((c as u32) - 0x10000) / 0x400) as u16,
            (0xDC00 + ((c as u32) - 0x10000) % 0x400) as u16,
        ]
    }
}

/// The UTF-16 encoding of a character sequence.
pub open spec fn utf16_units(s: Seq<char>) -> Seq<u16>
    decreases s.len(),
{
    if s.len() == 0 {
        Seq::empty()
    } else {
        utf16_units_of_char(s[0]) + utf16_units(s.drop_first())
    }
}

/// The character count the format stores: UTF-16 code units, so a surrogate
/// pair counts as two.
pub open spec fn str_char_count(s: Seq<char>) -> int {
    utf16_units(s).len() as int
}

/// A string the format can hold: at most 127 stored characters.
pub open spec fn str_wf(s: Seq<char>) -> bool {
    str_char_count(s) <= 127
}

/// One packed row of an ASCII string: character `2j` in the low byte,
/// character `2j + 1` (or a zero pad) in the high byte.
pub open spec fn ascii_pack(s: Seq<char>, j: int) -> u16 {
    ((s[2 * j] as u32) + 256 * (if 2 * j + 1 < s.len() {
        (s[2 * j + 1] as u32) as int
    } else {
        0int
    })) as u16
}

/// The packed rows of an ASCII string.
pub open spec fn ascii_rows(s: Seq<char>) -> Seq<u16> {
    Seq::new((((s.len() + 1) / 2) as int) as nat, |j: int| ascii_pack(s, j))
}

/// The data rows of a string: packed bytes when ASCII, UTF-16 otherwise.
pub open spec fn str_rows(s: Seq<char>) -> Seq<u16> {
    if is_ascii_chars(s) {
        ascii_rows(s)
    } else {
        utf16_units(s)
    }
}

/// The number of data rows a string occupies.
pub open spec fn str_row_count(s: Seq<char>) -> int {
    str_rows(s).len() as int
}

/// The descriptor word for a string whose data starts `off` rows from the
/// start of the record image.
pub open spec fn strdef_word(s: Seq<char>, off: int) -> u16 {
    (off * 256 + (if !is_ascii_chars(s) {
        128int
    } else {
        0int
    }) + str_char_count(s)) as u16
}

/// The row offset stored in a descriptor word (bits 8-15).
pub open spec fn strdef_offset(h: u16) -> int {
    h as int / 256
}

/// The character count stored in a descriptor word (bits 0-6).
pub open spec fn strdef_count(h: u16) -> int {
    h as int % 128
}

/// Whether a descriptor word marks its string as UTF-16 (bit 7).
pub open spec fn strdef_is_utf16(h: u16) -> bool {
    (h as int / 128) % 2 == 1
}

/// The number of data rows a descriptor word announces.
pub open spec fn strdef_row_span(h: u16) -> int {
    if strdef_is_utf16(h) {
        strdef_count(h)
    } else {
        (strdef_count(h) + 1) / 2
    }
}

/// UTF-16 decoding: a basic-plane unit stands alone, a high surrogate must
/// be followed by a low surrogate, anything else is invalid.
pub open spec fn utf16_combine(hi: u16, lo: u16) -> char {
    ((0x10000 + (hi - 0xD800) * 0x400 + (lo - 0xDC00)) as u32) as char
}

/// Decodes a UTF-16 code unit sequence, or reports it invalid.
pub open spec fn utf16_decode(units: Seq<u16>) -> Option<Seq<char>>
    decreases units.len(),
{
    if units.len() == 0 {
        Some(Seq::empty())
    } else if units[0] < 0xD800 || units[0] >= 0xE000 {
        match utf16_decode(units.drop_first()) {
            Some(rest) => Some(seq![(units[0] as u32) as char] + rest),
            None => None,
        }
    } else if units[0] < 0xDC00 {
        if units.len() >= 2 && 0xDC00 <= units[1] < 0xE000 {
            match utf16_decode(units.skip(2)) {
                Some(rest) => Some(seq![utf16_combine(units[0], units[1])] + rest),
                None => None,
            }
        } else {
            None
        }
    } else {
        None
    }
}

/// UTF-16 encoding distributes over concatenation.
pub proof fn lemma_utf16_units_concat(a: Seq<char>, b: Seq<char>)
    ensures
        utf16_units(a + b) == utf16_units(a) + utf16_units(b),
    decreases a.len(),
{
    if a.len() == 0 {
        assert(a + b =~= b);
        assert(utf16_units(a) =~= Seq::<u16>::empty());
        assert(utf16_units(a) + utf16_units(b) =~= utf16_units(b));
    } else {
        assert((a + b).drop_first() =~= a.drop_first() + b);
        lemma_utf16_units_concat(a.drop_first(), b);
        assert((a + b)[0] == a[0]);
        assert(utf16_units(a + b) =~= utf16_units(a) + utf16_units(b));
    }
}

/// Appending one character appends its code units.
pub proof fn lemma_utf16_units_push(s: Seq<char>, c: char)
    ensures
        utf16_units(s.push(c)) == utf16_units(s) + utf16_units_of_char(c),
{
    lemma_utf16_units_concat(s, seq![c]);
    assert(s.push(c) =~= s + seq![c]);
    assert(seq![c].drop_first() =~= Seq::<char>::empty());
    assert(utf16_units(seq![c]) =~= utf16_units_of_char(c) + utf16_units(seq![c].drop_first()));
    assert(utf16_units(seq![c]) =~= utf16_units_of_char(c));
}

/// There are at most two code units per character.
pub proof fn lemma_utf16_units_at_most_double(s: Seq<char>)
    ensures
        utf16_units(s).len() <= 2 * s.len(),
    decreases s.len(),
{
    if s.len() > 0 {
        lemma_utf16_units_at_most_double(s.drop_first());
    }
}

/// There are at least as many code units as characters.
pub proof fn lemma_utf16_units_len(s: Seq<char>)
    ensures
        utf16_units(s).len() >= s.len(),
    decreases s.len(),
{
    if s.len() > 0 {
        lemma_utf16_units_len(s.drop_first());
    }
}

/// For an ASCII string the code units are the code points themselves, one
/// per character.
pub proof fn lemma_utf16_units_ascii(s: Seq<char>)
    requires
        is_ascii_chars(s),
    ensures
        utf16_units(s).len() == s.len(),
        forall|i: int| 0 <= i < s.len() ==> utf16_units(s)[i] == (s[i] as u32) as u16,
    decreases s.len(),
{
    if s.len() > 0 {
        assert(s[0] == s.index(0));
        assert('\0' <= s[0] <= '\u{7f}');
        assert((s[0] as u32) < 0x10000);
        lemma_utf16_units_ascii(s.drop_first());
        assert(forall|i: int|
            0 <= i < s.drop_first().len() ==> s.drop_first()[i] == s[i + 1]);
    }
}

/// Decoding inverts encoding: the code units of any string decode back to
/// exactly that string.
pub proof fn lemma_utf16_decode_encode(s: Seq<char>)
    ensures
        utf16_decode(utf16_units(s)) == Some(s),
    decreases s.len(),
{
    if s.len() == 0 {
        assert(utf16_units(s) =~= Seq::<u16>::empty());
    } else {
        let c = s[0];
        let rest = s.drop_first();
        lemma_utf16_decode_encode(rest);
        let u = utf16_units(s);
        vstd::utf8::char_is_scalar(c);
        assert(is_scalar(c as u32));
        if (c as u32) < 0x10000 {
            let u0 = (c as u32) as u16;
            assert(u[0] == u0);
            assert(u0 as u32 == c as u32);
            assert(u0 < 0xD800 || u0 >= 0xE000);
            assert(u.drop_first() =~= utf16_units(rest));
            vstd::utf8::char_u32_cast(c, u0 as u32);
            assert((u[0] as u32) as char == c);
            assert(utf16_decode(u) == Some(seq![c] + rest));
            assert(seq![c] + rest =~= s);
        } else {
            let v = (c as u32) - 0x10000;
            assert(0 <= v <= 0xFFFFF);
            vstd::arithmetic::div_mod::lemma_fundamental_div_mod(v, 0x400);
            assert(0 <= v / 0x400 <= 0x3FF) by (nonlinear_arith)
                requires 0 <= v <= 0xFFFFF;
            assert(0 <= v % 0x400 < 0x400);
            let hi = (0xD800 + v / 0x400) as u16;
            let lo = (0xDC00 + v % 0x400) as u16;
            assert(u[0] == hi && u[1] == lo);
            assert(0xD800 <= hi < 0xDC00);
            assert(0xDC00 <= lo < 0xE000);
            assert(u.skip(2) =~= utf16_units(rest));
            assert((0x10000 + (hi - 0xD800) * 0x400 + (lo - 0xDC00)) as u32 == c as u32);
            vstd::utf8::char_u32_cast(c, (0x10000 + (hi - 0xD800) * 0x400 + (lo - 0xDC00)) as u32);
            assert(utf16_combine(hi, lo) == c);
            assert(utf16_decode(u) == Some(seq![c] + rest));
            assert(seq![c] + rest =~= s);
        }
    }
}

/// A descriptor word built from a valid string and offset hands back its
/// three parts unchanged.
pub proof fn lemma_strdef_word_fields(s: Seq<char>, off: int)
    requires
        0 <= off <= 255,
        str_wf(s),
    ensures
        strdef_offset(strdef_word(s, off)) == off,
        strdef_count(strdef_word(s, off)) == str_char_count(s),
        strdef_is_utf16(strdef_word(s, off)) == !is_ascii_chars(s),
        strdef_row_span(strdef_word(s, off)) == str_row_count(s),
{
    let e: int = if !is_ascii_chars(s) {
        1int
    } else {
        0int
    };
    let cnt = str_char_count(s);
    assert(0 <= cnt <= 127);
    let w = off * 256 + e * 128 + cnt;
    assert(0 <= w <= 65535);
    assert(strdef_word(s, off) as int == w);
    assert(w / 256 == off) by (nonlinear_arith)
        requires
            0 <= off <= 255,
            0 <= e <= 1,
            0 <= cnt <= 127,
            w == off * 256 + e * 128 + cnt,
    ;
    assert(w % 128 == cnt) by (nonlinear_arith)
        requires
            0 <= off <= 255,
            0 <= e <= 1,
            0 <= cnt <= 127,
            w == off * 256 + e * 128 + cnt,
    ;
    assert((w / 128) % 2 == e) by (nonlinear_arith)
        requires
            0 <= off <= 255,
            0 <= e <= 1,
            0 <= cnt <= 127,
            w == off * 256 + e * 128 + cnt,
    ;
    if is_ascii_chars(s) {
        lemma_utf16_units_ascii(s);
    }
}

/// Relies on char::from_u32: it returns Some exactly for Unicode scalar
/// values, carrying the given code point.
#[verifier::external_body]
pub(crate) fn char_from_u32(u: u32) -> (r: Option<char>)
    ensures
        r is Some <==> is_scalar(u),
        r matches Some(c) ==> c as u32 == u,
{
    char::from_u32(u)
}

/// Relies on String's FromIterator over char: collecting yields exactly the
/// characters of the vector, in order.
#[verifier::external_body]
pub(crate) fn chars_to_string(chars: &Vec<char>) -> (r: String)
    ensures
        r@ == chars@,
{
    chars.iter().collect()
}


/// The outcome of decoding one string field from a row image: the value
/// recovered, if any, and the warnings met on the way.
pub struct SpecStrDecode {
    pub value: Option<Seq<char>>,
    pub warnings: Seq<Warning>,
}

/// The bytes behind a packed ASCII row sequence: low byte of each row
/// first, then its high byte.
pub open spec fn spec_unpack_bytes(body: Seq<u16>) -> Seq<u8> {
    Seq::new((2 * body.len()) as nat, |k: int| if k % 2 == 0 {
        (body[k / 2] as int % 256) as u8
    } else {
        (body[k / 2] as int / 256) as u8
    })
}

/// The warning raised when a decoded string exceeds its field's declared
/// maximum length.
pub open spec fn spec_len_warn(s: Seq<char>, i: int) -> Seq<Warning> {
    if str_char_count(s) > field_max_len(i) {
        seq![
            Warning::DecodedTooLong {
                field: i as usize,
                len: str_char_count(s) as usize,
                max: field_max_len(i) as usize,
            },
        ]
    } else {
        Seq::empty()
    }
}

/// Decoding one string field from a row image, given the low half of the
/// presence bitmap: the exact value recovered and the warnings raised, in
/// order.
#[verifier::opaque]
pub open spec fn spec_decode_string_field(
    rows: Seq<u16>,
    flags16: u16,
    i: int,
    utf16_allowed: bool,
) -> SpecStrDecode {
    let h = rows[i];
    if !flag_bit(flags16, i) {
        SpecStrDecode {
            value: None,
            warnings: if h != 0 {
                seq![Warning::StaleData { field: i as usize, row: h }]
            } else {
                Seq::empty()
            },
        }
    } else if h == 0 {
        SpecStrDecode { value: None, warnings: seq![Warning::StrdefZero { field: i as usize }] }
    } else {
        let off = strdef_offset(h);
        let cnt = strdef_count(h);
        let utf = strdef_is_utf16(h);
        if off < 16 {
            SpecStrDecode {
                value: None,
                warnings: seq![
                    Warning::OffsetInHeader { field: i as usize, offset: off as usize },
                ],
            }
        } else {
            let wu: Seq<Warning> = if utf && !utf16_allowed {
                seq![Warning::Utf16NotAllowed { field: i as usize }]
            } else {
                Seq::empty()
            };
            let rc = strdef_row_span(h);
            if off + rc > rows.len() {
                SpecStrDecode {
                    value: None,
                    warnings: wu + seq![
                        Warning::StringOutOfRange {
                            field: i as usize,
                            offset: off as usize,
                            rows: rc as usize,
                        },
                    ],
                }
            } else {
                let body = rows.subrange(off, off + rc);
                if utf {
                    match utf16_decode(body) {
                        None => SpecStrDecode {
                            value: None,
                            warnings: wu + seq![
                                Warning::InvalidStringData { field: i as usize },
                            ],
                        },
                        Some(s) => SpecStrDecode { value: Some(s), warnings: wu + spec_len_warn(s, i) },
                    }
                } else {
                    let bytes = spec_unpack_bytes(body);
                    let wp: Seq<Warning> = if exists|k: int|
                        cnt <= k < bytes.len() && bytes[k] != 0 {
                        seq![Warning::NonZeroPadding { field: i as usize }]
                    } else {
                        Seq::empty()
                    };
                    let data = bytes.take(cnt);
                    if exists|k: int| 0 <= k < cnt && data[k] >= 0x80 {
                        SpecStrDecode {
                            value: None,
                            warnings: wu + wp + seq![
                                Warning::InvalidStringData { field: i as usize },
                            ],
                        }
                    } else {
                        let s = data.map_values(|b: u8| (b as u32) as char);
                        SpecStrDecode { value: Some(s), warnings: wu + wp + spec_len_warn(s, i) }
                    }
                }
            }
        }
    }
}

/// A Unicode string of at most 127 stored characters, ready for the STRDEF
/// encoding.
#[derive(Debug)]
pub struct OtpString {
    string: String,
}

impl View for OtpString {
    type V = Seq<char>;

    closed spec fn view(&self) -> Seq<char> {
        self.string@
    }
}

impl Clone for OtpString {
    fn clone(&self) -> (r: Self)
        ensures
            r == *self,
    {
        proof {
            use_type_invariant(&*self);
        }
        OtpString { string: self.string.clone() }
    }
}

impl PartialEq for OtpString {
    fn eq(&self, other: &Self) -> (r: bool) {
        self.string.eq(&other.string)
    }
}

impl vstd::std_specs::cmp::PartialEqSpecImpl for OtpString {
    open spec fn obeys_eq_spec() -> bool {
        true
    }

    open spec fn eq_spec(&self, other: &Self) -> bool {
        self@ == other@
    }
}

impl OtpString {
    #[verifier::type_invariant]
    spec fn type_inv(self) -> bool {
        str_wf(self.string@)
    }

    /// Creates a string for the format; rejects one of more than 127 stored
    /// characters.
    pub fn new(string: String) -> (r: Result<OtpString, Error>)
        ensures
            match r {
                Ok(s) => s@ == string@ && str_wf(string@),
                Err(e) => !str_wf(string@) && e matches Error::StringTooLong(_),
            },
    {
        let s = string.as_str();
        let n = s.unicode_len();
        if n > 127 {
            proof {
                lemma_utf16_units_len(string@);
            }
            return Err(Error::StringTooLong(n));
        }
        let units = count_utf16_units(s);
        if units > 127 {
            return Err(Error::StringTooLong(units));
        }
        Ok(OtpString { string })
    }

    /// The text itself.
    pub fn string(&self) -> (r: &String)
        ensures
            r@ == self@,
    {
        &self.string
    }

    /// True when every character is ASCII.
    pub fn is_ascii(&self) -> (r: bool)
        ensures
            r == is_ascii_chars(self@),
    {
        self.string.as_str().is_ascii()
    }

    /// True when the string needs the UTF-16 encoding.
    pub fn is_utf16(&self) -> (r: bool)
        ensures
            r == !is_ascii_chars(self@),
    {
        !self.is_ascii()
    }

    /// The stored character count: UTF-16 code units, surrogate pairs
    /// counting as two.
    pub fn char_count(&self) -> (n: u8)
        ensures
            n as int == str_char_count(self@),
    {
        proof {
            use_type_invariant(&*self);
            lemma_utf16_units_len(self.string@);
        }
        count_utf16_units(self.string.as_str()) as u8
    }

    /// The number of data rows the string occupies.
    pub fn otp_row_count(&self) -> (n: u8)
        ensures
            n as int == str_row_count(self@),
    {
        proof {
            use_type_invariant(&*self);
        }
        if self.is_ascii() {
            proof {
                lemma_utf16_units_ascii(self@);
            }
            (self.char_count() + 1) / 2
        } else {
            self.char_count()
        }
    }

    /// The data rows: packed byte pairs for ASCII, code units for UTF-16.
    pub fn to_otp_rows(&self) -> (rows: Vec<u16>)
        ensures
            rows@ == str_rows(self@),
    {
        proof {
            use_type_invariant(&*self);
        }
        let s = self.string.as_str();
        let ghost view = self.string@;
        let mut rows: Vec<u16> = Vec::new();
        if s.is_ascii() {
            proof {
                lemma_utf16_units_ascii(view);
            }
            let n = s.unicode_len();
            let mut j: usize = 0;
            while 2 * j < n
                invariant
                    s@ == view,
                    is_ascii_chars(view),
                    n == view.len(),
                    n <= 127,
                    j <= (n + 1) / 2,
                    rows@ =~= ascii_rows(view).take(j as int),
                decreases n + 1 - 2 * j,
            {
                let low = s.get_ascii(2 * j) as u16;
                let high = if 2 * j + 1 < n {
                    s.get_ascii(2 * j + 1) as u16
                } else {
                    0u16
                };
                assert(low < 128 && high < 128);
                rows.push(low + 256 * high);
                proof {
                    let ji = j as int;
                    assert((view[2 * ji] as u32) < 128);
                    assert((view[2 * ji] as u8) as int == (view[2 * ji] as u32) as int);
                    if 2 * j + 1 < n {
                        assert((view[2 * ji + 1] as u8) as int == (view[2 * ji + 1] as u32) as int);
                    }
                    assert(rows@.last() == ascii_pack(view, j as int));
                    assert(rows@ =~= ascii_rows(view).take(j as int + 1));
                }
                j += 1;
            }
            assert(rows@ =~= ascii_rows(view));
        } else {
            let n = s.unicode_len();
            proof {
                lemma_utf16_units_len(view);
            }
            let mut i: usize = 0;
            while i < n
                invariant
                    s@ == view,
                    n == view.len(),
                    str_char_count(view) <= 127,
                    i <= n,
                    rows@ =~= utf16_units(view.take(i as int)),
                    rows@.len() <= 254,
                decreases n - i,
            {
                let c = s.get_char(i);
                proof {
                    lemma_utf16_units_push(view.take(i as int), c);
                    assert(view.take(i as int).push(c) =~= view.take(i as int + 1));
                    lemma_utf16_units_concat(view.take(i as int + 1), view.skip(i as int + 1));
                    assert(view.take(i as int + 1) + view.skip(i as int + 1) =~= view);
                }
                let cv = c as u32;
                if cv < 0x10000 {
                    rows.push(cv as u16);
                } else {
                    let v = cv - 0x10000;
                    proof {
                        vstd::utf8::char_is_scalar(c);
                        assert(v <= 0xFFFFF);
                        assert(v / 0x400 <= 0x3FF) by (nonlinear_arith)
                            requires v <= 0xFFFFF;
                    }
                    rows.push((0xD800 + v / 0x400) as u16);
                    rows.push((0xDC00 + v % 0x400) as u16);
                }
                i += 1;
            }
            assert(view.take(n as int) =~= view);
        }
        rows
    }

    /// Emits the descriptor word for this string at the given running row
    /// offset, then advances the offset past the string's data rows.
    pub fn to_strdef(&self, offset: &mut u8) -> (h: u16)
        requires
            *old(offset) as int + str_row_count(self@) <= 255,
        ensures
            h == strdef_word(self@, *old(offset) as int),
            *final(offset) as int == *old(offset) as int + str_row_count(self@),
    {
        proof {
            use_type_invariant(&*self);
            if is_ascii_chars(self@) {
                lemma_utf16_units_ascii(self@);
            }
        }
        let is_utf16 = self.is_utf16();
        let cnt = self.char_count() as u16;
        let rc = self.otp_row_count();
        let h = (*offset as u16) * 256 + (if is_utf16 {
            128u16
        } else {
            0u16
        }) + cnt;
        *offset = *offset + rc;
        h
    }


    /// Extracts this field's string from the row image, given the low half
    /// of the presence bitmap.  A clear presence bit, a malformed
    /// descriptor, a span past the end of the rows or undecodable text all
    /// yield a warning and no value; only the text itself is fatal to
    /// nothing — the record decode always proceeds.
    #[verifier::rlimit(100)]
    pub fn from_otp_data(
        rows: &[u16],
        usb_boot_flags: u16,
        field: &Field,
        utf16_allowed: bool,
        warnings: &mut Vec<Warning>,
    ) -> (r: Result<Option<OtpString>, Error>)
        requires
            rows@.len() >= 16,
            is_str_index(field.spec_index()),
        ensures
            r is Ok,
            ({
                let d = spec_decode_string_field(
                    rows@,
                    usb_boot_flags,
                    field.spec_index(),
                    utf16_allowed,
                );
                &&& (r matches Ok(v) ==> opt_str_view(v) == d.value)
                &&& final(warnings)@ == old(warnings)@ + d.warnings
            }),
    {
        proof {
            reveal(spec_decode_string_field);
        }
        let i = field.index();
        let ghost d = spec_decode_string_field(rows@, usb_boot_flags, i as int, utf16_allowed);
        let strdef = rows[i];
        if !flag_bit_set(usb_boot_flags, i) {
            if strdef != 0 {
                warnings.push(Warning::StaleData { field: i, row: strdef });
            } else {
                proof {
                    assert(warnings@ =~= warnings@ + Seq::<Warning>::empty());
                }
            }
            return Ok(None);
        }
        if strdef == 0 {
            warnings.push(Warning::StrdefZero { field: i });
            return Ok(None);
        }
        let off = Self::offset_from_row(strdef) as usize;
        let cnt = Self::char_count_from_row(strdef) as usize;
        let utf = Self::is_utf16_from_row(strdef);
        if off < 16 {
            warnings.push(Warning::OffsetInHeader { field: i, offset: off });
            return Ok(None);
        }
        if utf && !utf16_allowed {
            warnings.push(Warning::Utf16NotAllowed { field: i });
        }
        let rc = Self::row_count_from_strdef(strdef) as usize;
        if off + rc > rows.len() {
            warnings.push(Warning::StringOutOfRange { field: i, offset: off, rows: rc });
            proof {
                lemma_seq_assoc(old(warnings)@, d.warnings);
            }
            return Ok(None);
        }
        let ghost body = rows@.subrange(off as int, (off + rc) as int);
        let max_len = match field.max_length() {
            Some(m) => m,
            None => 0,
        };
        if utf {
            match decode_utf16_rows(rows, off, rc) {
                Some(cs) => {
                    let s = chars_to_string(&cs);
                    proof {
                        assert(utf16_units(s@).len() == rc);
                        assert(str_wf(s@));
                    }
                    let otp = OtpString { string: s };
                    if cnt > max_len {
                        warnings.push(
                            Warning::DecodedTooLong { field: i, len: cnt, max: max_len },
                        );
                    } else {
                        proof {
                            assert(d.warnings =~= d.warnings + Seq::<Warning>::empty());
                        }
                    }
                    proof {
                        lemma_seq_assoc(old(warnings)@, d.warnings);
                    }
                    Ok(Some(otp))
                },
                None => {
                    warnings.push(Warning::InvalidStringData { field: i });
                    proof {
                        lemma_seq_assoc(old(warnings)@, d.warnings);
                    }
                    Ok(None)
                },
            }
        } else {
            let bytes = unpack_rows(rows, off, rc);
            proof {
                assert(2 * rc >= cnt);
            }
            if any_nonzero_from(&bytes, cnt) {
                warnings.push(Warning::NonZeroPadding { field: i });
            }
            if any_high_bit(&bytes, cnt) {
                proof {
                    let k0 = choose|k: int| 0 <= k < cnt && bytes@[k] >= 0x80;
                    assert(spec_unpack_bytes(body).take(cnt as int)[k0] >= 0x80);
                    assert(exists|k: int|
                        0 <= k < cnt && spec_unpack_bytes(body).take(cnt as int)[k] >= 0x80);
                }
                warnings.push(Warning::InvalidStringData { field: i });
                proof {
                    lemma_seq_assoc(old(warnings)@, d.warnings);
                }
                Ok(None)
            } else {
                let cs = ascii_bytes_to_chars(&bytes, cnt);
                let s = chars_to_string(&cs);
                proof {
                    lemma_utf16_units_ascii(s@);
                    assert(str_wf(s@));
                    assert(cs@ =~= spec_unpack_bytes(body).take(cnt as int).map_values(
                        |b: u8| (b as u32) as char,
                    ));
                }
                let otp = OtpString { string: s };
                if cnt > max_len {
                    warnings.push(Warning::DecodedTooLong { field: i, len: cnt, max: max_len });
                }
                proof {
                    lemma_seq_assoc(old(warnings)@, d.warnings);
                }
                Ok(Some(otp))
            }
        }
    }

    /// The row offset stored in a descriptor word.
    pub fn offset_from_row(row: u16) -> (r: u8)
        ensures
            r as int == strdef_offset(row),
    {
        (row / 256) as u8
    }

    /// The character count stored in a descriptor word.
    pub fn char_count_from_row(row: u16) -> (r: u8)
        ensures
            r as int == strdef_count(row),
    {
        (row % 128) as u8
    }

    /// True when a descriptor word marks its string as ASCII.
    pub fn is_ascii_from_row(row: u16) -> (r: bool)
        ensures
            r == !strdef_is_utf16(row),
    {
        (row / 128) % 2 == 0
    }

    /// True when a descriptor word marks its string as UTF-16.
    pub fn is_utf16_from_row(row: u16) -> (r: bool)
        ensures
            r == strdef_is_utf16(row),
    {
        !Self::is_ascii_from_row(row)
    }

    /// The number of data rows the string behind a descriptor word occupies.
    pub fn row_count_from_strdef(row: u16) -> (r: u8)
        ensures
            r as int == strdef_row_span(row),
    {
        let cnt = Self::char_count_from_row(row);
        if Self::is_utf16_from_row(row) {
            cnt
        } else {
            (cnt + 1) / 2
        }
    }
}


// Decodes UTF-16 payload rows into characters, or reports them invalid.
// Pairs each high surrogate with the low surrogate that must follow it.
fn decode_utf16_rows(rows: &[u16], off: usize, rc: usize) -> (r: Option<Vec<char>>)
    requires
        off + rc <= rows@.len(),
    ensures
        ({
            let body = rows@.subrange(off as int, (off + rc) as int);
            match r {
                Some(cs) => utf16_decode(body) == Some(cs@) && utf16_units(cs@) == body,
                None => utf16_decode(body) is None,
            }
        }),
{
    let ghost body = rows@.subrange(off as int, (off + rc) as int);
    let rows_len = rows.len();
    let mut chars: Vec<char> = Vec::new();
    let mut k: usize = 0;
    proof {
        assert(body.skip(0) =~= body);
        match utf16_decode(body) {
            Some(rest) => {
                assert(Seq::<char>::empty() + rest =~= rest);
            },
            None => {},
        }
        assert(utf16_units(chars@) =~= body.take(0));
    }
    while k < rc
        invariant
            rows_len == rows@.len(),
            off + rc <= rows_len,
            body == rows@.subrange(off as int, (off + rc) as int),
            k <= rc,
            utf16_units(chars@) =~= body.take(k as int),
            (match utf16_decode(body.skip(k as int)) {
                Some(rest) => utf16_decode(body) == Some(chars@ + rest),
                None => utf16_decode(body) is None,
            }),
        decreases rc - k,
    {
        let u = rows[off + k];
        proof {
            assert(body.skip(k as int)[0] == body[k as int]);
            assert(body[k as int] == rows@[(off + k) as int]);
            assert(body.skip(k as int).drop_first() =~= body.skip(k as int + 1));
        }
        if u < 0xD800 || u >= 0xE000 {
            let c = match char_from_u32(u as u32) {
                Some(c) => c,
                None => {
                    proof {
                        assert(false);
                    }
                    ' '
                },
            };
            proof {
                lemma_utf16_units_push(chars@, c);
                assert(utf16_units_of_char(c) =~= seq![u]);
                assert(body.take(k as int + 1) =~= body.take(k as int).push(u));
                vstd::utf8::char_u32_cast(c, u as u32);
                assert((body.skip(k as int)[0] as u32) as char == c);
                match utf16_decode(body.skip(k as int + 1)) {
                    Some(rest2) => {
                        assert(utf16_decode(body.skip(k as int)) == Some(seq![c] + rest2));
                        assert(chars@.push(c) + rest2 =~= chars@ + (seq![c] + rest2));
                    },
                    None => {
                        assert(utf16_decode(body.skip(k as int)) is None);
                    },
                }
            }
            chars.push(c);
            k += 1;
        } else if u < 0xDC00 && k + 1 < rc {
            let u2 = rows[off + k + 1];
            proof {
                assert(body.skip(k as int)[1] == body[k as int + 1]);
                assert(body[k as int + 1] == rows@[(off + k + 1) as int]);
            }
            if 0xDC00 <= u2 && u2 < 0xE000 {
                let cv: u32 = 0x10000 + ((u - 0xD800) as u32) * 0x400 + ((u2 - 0xDC00) as u32);
                let c = match char_from_u32(cv) {
                    Some(c) => c,
                    None => {
                        proof {
                            assert(false);
                        }
                        ' '
                    },
                };
                proof {
                    vstd::utf8::char_u32_cast(c, cv);
                    lemma_utf16_units_push(chars@, c);
                    let v = (c as u32) - 0x10000;
                    assert(v == (u - 0xD800) * 0x400 + (u2 - 0xDC00));
                    assert(v / 0x400 == u - 0xD800 && v % 0x400 == u2 - 0xDC00) by (nonlinear_arith)
                        requires
                            0xD800 <= u < 0xDC00,
                            0xDC00 <= u2 < 0xE000,
                            v == (u - 0xD800) * 0x400 + (u2 - 0xDC00),
                    ;
                    assert(utf16_units_of_char(c) =~= seq![u, u2]);
                    assert(body.take(k as int + 2) =~= body.take(k as int).push(u).push(u2));
                    assert(utf16_units(chars@.push(c)) =~= body.take(k as int + 2));
                    assert(body.skip(k as int).skip(2) =~= body.skip(k as int + 2));
                    assert(utf16_combine(body.skip(k as int)[0], body.skip(k as int)[1]) == c);
                    match utf16_decode(body.skip(k as int + 2)) {
                        Some(rest2) => {
                            assert(utf16_decode(body.skip(k as int)) == Some(seq![c] + rest2));
                            assert(chars@.push(c) + rest2 =~= chars@ + (seq![c] + rest2));
                        },
                        None => {
                            assert(utf16_decode(body.skip(k as int)) is None);
                        },
                    }
                }
                chars.push(c);
                k += 2;
            } else {
                proof {
                    assert(utf16_decode(body.skip(k as int)) is None);
                }
                return None;
            }
        } else {
            proof {
                if u < 0xDC00 {
                    assert(body.skip(k as int).len() < 2);
                }
                assert(utf16_decode(body.skip(k as int)) is None);
            }
            return None;
        }
    }
    proof {
        assert(body.skip(rc as int) =~= Seq::<u16>::empty());
        assert(utf16_decode(body.skip(rc as int)) == Some(Seq::<char>::empty()));
        assert(chars@ + Seq::<char>::empty() =~= chars@);
        assert(body.take(rc as int) =~= body);
    }
    Some(chars)
}

// Splits packed ASCII payload rows into their bytes, low byte first.
fn unpack_rows(rows: &[u16], off: usize, rc: usize) -> (bytes: Vec<u8>)
    requires
        off + rc <= rows@.len(),
        rc <= 127,
    ensures
        bytes@ == spec_unpack_bytes(rows@.subrange(off as int, (off + rc) as int)),
{
    let ghost body = rows@.subrange(off as int, (off + rc) as int);
    let rows_len = rows.len();
    let mut bytes: Vec<u8> = Vec::new();
    let mut k: usize = 0;
    while k < rc
        invariant
            rows_len == rows@.len(),
            off + rc <= rows_len,
            rc <= 127,
            body == rows@.subrange(off as int, (off + rc) as int),
            k <= rc,
            bytes@ =~= spec_unpack_bytes(body).take(2 * k as int),
        decreases rc - k,
    {
        let row = rows[off + k];
        proof {
            assert(body[k as int] == rows@[(off + k) as int]);
        }
        bytes.push((row % 256) as u8);
        bytes.push((row / 256) as u8);
        proof {
            assert(bytes@ =~= spec_unpack_bytes(body).take(2 * (k as int + 1)));
        }
        k += 1;
    }
    proof {
        assert(spec_unpack_bytes(body).take(2 * rc as int) =~= spec_unpack_bytes(body));
    }
    bytes
}

// True when any byte from `start` on is non-zero.
fn any_nonzero_from(bytes: &Vec<u8>, start: usize) -> (b: bool)
    requires
        start <= bytes@.len(),
    ensures
        b == exists|k: int| start <= k < bytes@.len() && bytes@[k] != 0,
{
    let mut k = start;
    while k < bytes.len()
        invariant
            start <= k <= bytes@.len(),
            forall|j: int| start <= j < k ==> bytes@[j] == 0,
        decreases bytes@.len() - k,
    {
        if bytes[k] != 0 {
            return true;
        }
        k += 1;
    }
    false
}

// True when any byte below `end` has its high bit set.
fn any_high_bit(bytes: &Vec<u8>, end: usize) -> (b: bool)
    requires
        end <= bytes@.len(),
    ensures
        b == exists|k: int| 0 <= k < end && bytes@[k] >= 0x80,
{
    let mut k: usize = 0;
    while k < end
        invariant
            k <= end <= bytes@.len(),
            forall|j: int| 0 <= j < k ==> bytes@[j] < 0x80,
        decreases end - k,
    {
        if bytes[k] >= 0x80 {
            return true;
        }
        k += 1;
    }
    false
}

// Turns ASCII bytes into their characters.
fn ascii_bytes_to_chars(bytes: &Vec<u8>, end: usize) -> (cs: Vec<char>)
    requires
        end <= bytes@.len(),
        forall|k: int| 0 <= k < end ==> bytes@[k] < 0x80,
    ensures
        cs@ == bytes@.take(end as int).map_values(|b: u8| (b as u32) as char),
        is_ascii_chars(cs@),
        cs@.len() == end,
{
    let mut cs: Vec<char> = Vec::new();
    let mut k: usize = 0;
    while k < end
        invariant
            end <= bytes@.len(),
            forall|j: int| 0 <= j < end ==> bytes@[j] < 0x80,
            k <= end,
            cs@.len() == k,
            forall|j: int| 0 <= j < k ==> cs@[j] == (bytes@[j] as u32) as char,
            forall|j: int| 0 <= j < k ==> '\0' <= #[trigger] cs@[j] <= '\u{7f}',
        decreases end - k,
    {
        let b = bytes[k];
        let c = match char_from_u32(b as u32) {
            Some(c) => c,
            None => {
                proof {
                    assert(false);
                }
                ' '
            },
        };
        proof {
            vstd::utf8::char_u32_cast(c, b as u32);
        }
        cs.push(c);
        k += 1;
    }
    proof {
        assert(cs@ =~= bytes@.take(end as int).map_values(|b: u8| (b as u32) as char));
    }
    cs
}


/// Concatenation of warning lists associates.
proof fn lemma_seq_assoc(a: Seq<Warning>, b: Seq<Warning>)
    ensures
        forall|c: Seq<Warning>, d: Seq<Warning>| b == c + d ==> a + b =~= (a + c) + d,
{
}

/// Counts the UTF-16 code units of a string of at most 127 characters.
fn count_utf16_units(s: &str) -> (n: usize)
    requires
        s@.len() <= 127,
    ensures
        n as int == str_char_count(s@),
{
    let len = s.unicode_len();
    let mut n: usize = 0;
    let mut i: usize = 0;
    while i < len
        invariant
            len == s@.len(),
            len <= 127,
            i <= len,
            n as int == utf16_units(s@.take(i as int)).len(),
            n <= 2 * i,
        decreases len - i,
    {
        let c = s.get_char(i);
        proof {
            lemma_utf16_units_push(s@.take(i as int), c);
            assert(s@.take(i as int).push(c) =~= s@.take(i as int + 1));
        }
        if (c as u32) < 0x10000 {
            n += 1;
        } else {
            n += 2;
        }
        i += 1;
    }
    proof {
        assert(s@.take(len as int) =~= s@);
    }
    n
}

} // verus!

//! The human-authored configuration form of a record, and the lossless
//! conversions between the two.
//!
//! A front end (a JSON file, a CLI) describes a record with text: the USB
//! identifiers as `0x`-prefixed hex strings, the device revision as decimal
//! digits, the attribute pair as hex bytes, and the strings as plain text.
//! This module validates that form and converts it to a record and back.
//! Reading and writing the configuration itself (JSON, argument parsing) is
//! the caller's business; this module only ever sees plain values.

use vstd::prelude::*;
use vstd::utf8::is_ascii_chars;

use crate::fields::{field_max_len, field_utf16_allowed, is_str_index, Field};
use crate::record::{
    clone_warnings, opt_str_view, spec_field_issue, spec_validation, spec_validation_upto,
    str_field, RecordView, WhiteLabelStruct,
};
use crate::strdef::{
    chars_to_string, lemma_utf16_units_ascii, lemma_utf16_units_at_most_double,
    lemma_utf16_units_len, OtpString,
};
use crate::Error;

verus! {

/// The front-end form of a record: every field optional, every value plain
/// text or digits.  `bcd` holds the decimal device revision split into its
/// integer part, tenths and hundredths digits.
#[derive(Debug)]
pub struct FrontEnd {
    pub vid: Option<String>,
    pub pid: Option<String>,
    pub bcd: Option<(u8, u8, u8)>,
    pub lang_id: Option<String>,
    pub manufacturer: Option<String>,
    pub product: Option<String>,
    pub serial_number: Option<String>,
    pub attributes: Option<String>,
    pub max_power: Option<String>,
    pub volume_label: Option<String>,
    pub scsi_vendor: Option<String>,
    pub scsi_product: Option<String>,
    pub scsi_version: Option<String>,
    pub redirect_url: Option<String>,
    pub redirect_name: Option<String>,
    pub uf2_model: Option<String>,
    pub uf2_board_id: Option<String>,
}

/// The mathematical model of a front end: each text as its characters.
#[verifier::ext_equal]
pub struct FrontEndView {
    pub vid: Option<Seq<char>>,
    pub pid: Option<Seq<char>>,
    pub bcd: Option<(u8, u8, u8)>,
    pub lang_id: Option<Seq<char>>,
    pub manufacturer: Option<Seq<char>>,
    pub product: Option<Seq<char>>,
    pub serial_number: Option<Seq<char>>,
    pub attributes: Option<Seq<char>>,
    pub max_power: Option<Seq<char>>,
    pub volume_label: Option<Seq<char>>,
    pub scsi_vendor: Option<Seq<char>>,
    pub scsi_product: Option<Seq<char>>,
    pub scsi_version: Option<Seq<char>>,
    pub redirect_url: Option<Seq<char>>,
    pub redirect_name: Option<Seq<char>>,
    pub uf2_model: Option<Seq<char>>,
    pub uf2_board_id: Option<Seq<char>>,
}

/// The characters of an optional text.
pub open spec fn opt_text(o: Option<String>) -> Option<Seq<char>> {
    match o {
        Some(s) => Some(s@),
        None => None,
    }
}

impl View for FrontEnd {
    type V = FrontEndView;

    open spec fn view(&self) -> FrontEndView {
        FrontEndView {
            vid: opt_text(self.vid),
            pid: opt_text(self.pid),
            bcd: self.bcd,
            lang_id: opt_text(self.lang_id),
            manufacturer: opt_text(self.manufacturer),
            product: opt_text(self.product),
            serial_number: opt_text(self.serial_number),
            attributes: opt_text(self.attributes),
            max_power: opt_text(self.max_power),
            volume_label: opt_text(self.volume_label),
            scsi_vendor: opt_text(self.scsi_vendor),
            scsi_product: opt_text(self.scsi_product),
            scsi_version: opt_text(self.scsi_version),
            redirect_url: opt_text(self.redirect_url),
            redirect_name: opt_text(self.redirect_name),
            uf2_model: opt_text(self.uf2_model),
            uf2_board_id: opt_text(self.uf2_board_id),
        }
    }
}

/// The model of an empty front end.
pub open spec fn empty_front_end() -> FrontEndView {
    FrontEndView {
        vid: None,
        pid: None,
        bcd: None,
        lang_id: None,
        manufacturer: None,
        product: None,
        serial_number: None,
        attributes: None,
        max_power: None,
        volume_label: None,
        scsi_vendor: None,
        scsi_product: None,
        scsi_version: None,
        redirect_url: None,
        redirect_name: None,
        uf2_model: None,
        uf2_board_id: None,
    }
}

impl Default for FrontEnd {
    /// An empty front end: no field given.
    fn default() -> (fe: Self)
        ensures
            fe@ == empty_front_end(),
    {
        FrontEnd {
            vid: None,
            pid: None,
            bcd: None,
            lang_id: None,
            manufacturer: None,
            product: None,
            serial_number: None,
            attributes: None,
            max_power: None,
            volume_label: None,
            scsi_vendor: None,
            scsi_product: None,
            scsi_version: None,
            redirect_url: None,
            redirect_name: None,
            uf2_model: None,
            uf2_board_id: None,
        }
    }
}

/// Whether the character is a hex digit, upper or lower case.
pub open spec fn hex_digit_wf(c: char) -> bool {
    ('0' as int <= c as int && c as int <= '9' as int) || ('a' as int <= c as int && c as int
        <= 'f' as int) || ('A' as int <= c as int && c as int <= 'F' as int)
}

/// The value of a hex digit.
pub open spec fn hex_digit_val(c: char) -> int {
    if '0' as int <= c as int && c as int <= '9' as int {
        c as int - '0' as int
    } else if 'a' as int <= c as int && c as int <= 'f' as int {
        c as int - 'a' as int + 10
    } else {
        c as int - 'A' as int + 10
    }
}

/// A 16-bit hex text: `0x` followed by exactly four hex digits.
pub open spec fn hex4_wf(s: Seq<char>) -> bool {
    &&& s.len() == 6
    &&& s[0] == '0'
    &&& s[1] == 'x'
    &&& hex_digit_wf(s[2])
    &&& hex_digit_wf(s[3])
    &&& hex_digit_wf(s[4])
    &&& hex_digit_wf(s[5])
}

/// The value of a 16-bit hex text.
pub open spec fn hex4_val(s: Seq<char>) -> int {
    hex_digit_val(s[2]) * 0x1000 + hex_digit_val(s[3]) * 0x100 + hex_digit_val(s[4]) * 16
        + hex_digit_val(s[5])
}

/// A byte hex text: `0x` followed by one or two hex digits.
pub open spec fn hex_byte_wf(s: Seq<char>) -> bool {
    &&& 3 <= s.len() <= 4
    &&& s[0] == '0'
    &&& s[1] == 'x'
    &&& hex_digit_wf(s[2])
    &&& (s.len() == 4 ==> hex_digit_wf(s[3]))
}

/// The value of a byte hex text.
pub open spec fn hex_byte_val(s: Seq<char>) -> int {
    if s.len() == 3 {
        hex_digit_val(s[2])
    } else {
        hex_digit_val(s[2]) * 16 + hex_digit_val(s[3])
    }
}

/// A USB attributes text: `0x`, then `8`, `a`, `c` or `e` (either case),
/// then `0` — bit 7 set, bits 0-4 clear.
pub open spec fn attributes_wf(s: Seq<char>) -> bool {
    &&& s.len() == 4
    &&& s[0] == '0'
    &&& s[1] == 'x'
    &&& (s[2] == '8' || s[2] == 'a' || s[2] == 'c' || s[2] == 'e' || s[2] == 'A' || s[2] == 'C'
        || s[2] == 'E')
    &&& s[3] == '0'
}

/// The value of a USB attributes text.
pub open spec fn attributes_val(s: Seq<char>) -> int {
    hex_digit_val(s[2]) * 16
}

/// A device-revision digit triple: integer part at most 99, tenths and
/// hundredths single decimal digits.
pub open spec fn bcd_triple_wf(t: (u8, u8, u8)) -> bool {
    t.0 <= 99 && t.1 <= 9 && t.2 <= 9
}

/// The packed BCD revision of a digit triple.
pub open spec fn bcd_pack(t: (u8, u8, u8)) -> u16 {
    ((t.0 as int / 10) * 0x1000 + (t.0 as int % 10) * 0x100 + t.1 as int * 16 + t.2 as int) as u16
}

/// The digit triple of a packed BCD revision.
pub open spec fn bcd_split(v: u16) -> (u8, u8, u8) {
    (
        (((v as int / 0x1000) % 16) * 10 + (v as int / 0x100) % 16) as u8,
        ((v as int / 16) % 16) as u8,
        (v as int % 16) as u8,
    )
}

/// The default attributes text a lone `max_power` is paired with: bus
/// powered, no remote wakeup.
pub open spec fn default_attributes_text() -> Seq<char> {
    seq!['0', 'x', '8', '0']
}

/// The default power text a lone `attributes` is paired with: 500 mA.
pub open spec fn default_max_power_text() -> Seq<char> {
    seq!['0', 'x', 'f', 'a']
}

/// The correction applied before validation: a power given without
/// attributes gains the default attributes, and attributes given without a
/// power gain the default power.
pub open spec fn spec_correct(fe: FrontEndView) -> FrontEndView {
    FrontEndView {
        attributes: if fe.max_power is Some && fe.attributes is None {
            Some(default_attributes_text())
        } else {
            fe.attributes
        },
        max_power: if fe.attributes is Some && fe.max_power is None {
            Some(default_max_power_text())
        } else {
            fe.max_power
        },
        ..fe
    }
}

/// Whether an optional hex text is absent or a well-formed 16-bit value.
pub open spec fn opt_hex4_wf(o: Option<Seq<char>>) -> bool {
    match o {
        Some(s) => hex4_wf(s),
        None => true,
    }
}

/// Whether an optional front-end string fits its field: within the field's
/// declared maximum, and ASCII where the field demands it.
pub open spec fn spec_fe_str_wf(o: Option<Seq<char>>, i: int) -> bool {
    match o {
        Some(s) => s.len() <= field_max_len(i) && (!field_utf16_allowed(i) ==> is_ascii_chars(s)),
        None => true,
    }
}

/// The front-end text standing for the string field at index `i`.
pub open spec fn fe_str(fe: FrontEndView, i: int) -> Option<Seq<char>> {
    if i == 4 {
        fe.manufacturer
    } else if i == 5 {
        fe.product
    } else if i == 6 {
        fe.serial_number
    } else if i == 8 {
        fe.volume_label
    } else if i == 9 {
        fe.scsi_vendor
    } else if i == 10 {
        fe.scsi_product
    } else if i == 11 {
        fe.scsi_version
    } else if i == 12 {
        fe.redirect_url
    } else if i == 13 {
        fe.redirect_name
    } else if i == 14 {
        fe.uf2_model
    } else {
        fe.uf2_board_id
    }
}

/// Whether the front-end value for field `i` is well formed.
pub open spec fn spec_fe_field_wf(fe: FrontEndView, i: int) -> bool {
    if i == 0 {
        opt_hex4_wf(fe.vid)
    } else if i == 1 {
        opt_hex4_wf(fe.pid)
    } else if i == 2 {
        match fe.bcd {
            Some(t) => bcd_triple_wf(t),
            None => true,
        }
    } else if i == 3 {
        opt_hex4_wf(fe.lang_id)
    } else if i == 7 {
        &&& match fe.attributes {
            Some(s) => attributes_wf(s),
            None => true,
        }
        &&& match fe.max_power {
            Some(s) => hex_byte_wf(s),
            None => true,
        }
    } else {
        spec_fe_str_wf(fe_str(fe, i), i)
    }
}

/// The lowest field index whose front-end value is malformed, or 16 when
/// every value is well formed.
pub open spec fn spec_first_bad_field(fe: FrontEndView) -> int {
    if !spec_fe_field_wf(fe, 0) {
        0int
    } else if !spec_fe_field_wf(fe, 1) {
        1int
    } else if !spec_fe_field_wf(fe, 2) {
        2int
    } else if !spec_fe_field_wf(fe, 3) {
        3int
    } else if !spec_fe_field_wf(fe, 4) {
        4int
    } else if !spec_fe_field_wf(fe, 5) {
        5int
    } else if !spec_fe_field_wf(fe, 6) {
        6int
    } else if !spec_fe_field_wf(fe, 7) {
        7int
    } else if !spec_fe_field_wf(fe, 8) {
        8int
    } else if !spec_fe_field_wf(fe, 9) {
        9int
    } else if !spec_fe_field_wf(fe, 10) {
        10int
    } else if !spec_fe_field_wf(fe, 11) {
        11int
    } else if !spec_fe_field_wf(fe, 12) {
        12int
    } else if !spec_fe_field_wf(fe, 13) {
        13int
    } else if !spec_fe_field_wf(fe, 14) {
        14int
    } else if !spec_fe_field_wf(fe, 15) {
        15int
    } else {
        16int
    }
}

/// Whether every front-end value is well formed.
pub open spec fn spec_fe_wf(fe: FrontEndView) -> bool {
    spec_first_bad_field(fe) == 16
}

/// The value of an optional 16-bit hex text.
pub open spec fn spec_opt_hex4(o: Option<Seq<char>>) -> Option<u16> {
    match o {
        Some(s) => Some(hex4_val(s) as u16),
        None => None,
    }
}

/// The record a front end describes: hex texts parsed, the revision packed,
/// the attribute pair combined into one word, the strings carried over.
/// Meaningful after correction, for a well-formed front end.
pub open spec fn spec_record_of_front_end(fe: FrontEndView) -> RecordView {
    RecordView {
        vendor_id: spec_opt_hex4(fe.vid),
        product_id: spec_opt_hex4(fe.pid),
        bcd_device: match fe.bcd {
            Some(t) => Some(bcd_pack(t)),
            None => None,
        },
        language_id: spec_opt_hex4(fe.lang_id),
        attr_power: match (fe.attributes, fe.max_power) {
            (Some(a), Some(p)) => Some((hex_byte_val(p) * 256 + attributes_val(a)) as u16),
            _ => None,
        },
        manufacturer: fe.manufacturer,
        product: fe.product,
        serial_number: fe.serial_number,
        volume_label: fe.volume_label,
        scsi_vendor: fe.scsi_vendor,
        scsi_product: fe.scsi_product,
        scsi_version: fe.scsi_version,
        redirect_url: fe.redirect_url,
        redirect_name: fe.redirect_name,
        uf2_model: fe.uf2_model,
        uf2_board_id: fe.uf2_board_id,
        warnings: Seq::empty(),
    }
}

/// One hex digit, lower case.
pub open spec fn spec_hex_char(v: int) -> char {
    if v == 0 {
        '0'
    } else if v == 1 {
        '1'
    } else if v == 2 {
        '2'
    } else if v == 3 {
        '3'
    } else if v == 4 {
        '4'
    } else if v == 5 {
        '5'
    } else if v == 6 {
        '6'
    } else if v == 7 {
        '7'
    } else if v == 8 {
        '8'
    } else if v == 9 {
        '9'
    } else if v == 10 {
        'a'
    } else if v == 11 {
        'b'
    } else if v == 12 {
        'c'
    } else if v == 13 {
        'd'
    } else if v == 14 {
        'e'
    } else {
        'f'
    }
}

/// The canonical text of a 16-bit value: `0x` and four lower-case digits.
pub open spec fn spec_hex4_text(v: int) -> Seq<char> {
    seq![
        '0',
        'x',
        spec_hex_char((v / 0x1000) % 16),
        spec_hex_char((v / 0x100) % 16),
        spec_hex_char((v / 16) % 16),
        spec_hex_char(v % 16),
    ]
}

/// The canonical text of a byte: `0x` and two lower-case digits.
pub open spec fn spec_hex_byte_text(v: int) -> Seq<char> {
    seq!['0', 'x', spec_hex_char((v / 16) % 16), spec_hex_char(v % 16)]
}

/// The front end describing a record: its values written back as canonical
/// hex texts, the revision split into decimal digits, the strings carried
/// over.
pub open spec fn spec_front_end_of_record(r: RecordView) -> FrontEndView {
    FrontEndView {
        vid: match r.vendor_id {
            Some(v) => Some(spec_hex4_text(v as int)),
            None => None,
        },
        pid: match r.product_id {
            Some(v) => Some(spec_hex4_text(v as int)),
            None => None,
        },
        bcd: match r.bcd_device {
            Some(v) => Some(bcd_split(v)),
            None => None,
        },
        lang_id: match r.language_id {
            Some(v) => Some(spec_hex4_text(v as int)),
            None => None,
        },
        attributes: match r.attr_power {
            Some(v) => Some(spec_hex_byte_text(v as int % 256)),
            None => None,
        },
        max_power: match r.attr_power {
            Some(v) => Some(spec_hex_byte_text(v as int / 256)),
            None => None,
        },
        manufacturer: r.manufacturer,
        product: r.product,
        serial_number: r.serial_number,
        volume_label: r.volume_label,
        scsi_vendor: r.scsi_vendor,
        scsi_product: r.scsi_product,
        scsi_version: r.scsi_version,
        redirect_url: r.redirect_url,
        redirect_name: r.redirect_name,
        uf2_model: r.uf2_model,
        uf2_board_id: r.uf2_board_id,
    }
}

/// The value of a hex digit character, if it is one.
fn hex_digit(c: char) -> (r: Option<u8>)
    ensures
        r is Some <==> hex_digit_wf(c),
        r matches Some(v) ==> v < 16 && v as int == hex_digit_val(c),
{
    let u = c as u32;
    if 48 <= u && u <= 57 {
        Some((u - 48) as u8)
    } else if 97 <= u && u <= 102 {
        Some((u - 87) as u8)
    } else if 65 <= u && u <= 70 {
        Some((u - 55) as u8)
    } else {
        None
    }
}

/// Parses a `0x`-prefixed four-digit hex text into its 16-bit value.
fn parse_hex4(s: &str) -> (r: Option<u16>)
    ensures
        r is Some <==> hex4_wf(s@),
        r matches Some(v) ==> v as int == hex4_val(s@),
{
    let n: usize = s.unicode_len();
    if n != 6 {
        return None;
    }
    if s.get_char(0) != '0' || s.get_char(1) != 'x' {
        return None;
    }
    let d3 = hex_digit(s.get_char(2));
    let d2 = hex_digit(s.get_char(3));
    let d1 = hex_digit(s.get_char(4));
    let d0 = hex_digit(s.get_char(5));
    match (d3, d2, d1, d0) {
        (Some(a), Some(b), Some(c), Some(d)) => Some(
            (a as u16) * 0x1000 + (b as u16) * 0x100 + (c as u16) * 16 + (d as u16),
        ),
        _ => None,
    }
}

/// Parses a `0x`-prefixed one- or two-digit hex text into its byte value.
fn parse_hex_byte(s: &str) -> (r: Option<u8>)
    ensures
        r is Some <==> hex_byte_wf(s@),
        r matches Some(v) ==> v as int == hex_byte_val(s@),
{
    let n: usize = s.unicode_len();
    if n < 3 || n > 4 {
        return None;
    }
    if s.get_char(0) != '0' || s.get_char(1) != 'x' {
        return None;
    }
    let hi = hex_digit(s.get_char(2));
    if n == 3 {
        return hi;
    }
    let lo = hex_digit(s.get_char(3));
    match (hi, lo) {
        (Some(a), Some(b)) => Some(a * 16 + b),
        _ => None,
    }
}

/// Parses a USB attributes text into its byte value; only `0x` followed by
/// `8`, `a`, `c` or `e` (either case) and a final `0` is accepted.
fn parse_attributes(s: &str) -> (r: Option<u8>)
    ensures
        r is Some <==> attributes_wf(s@),
        r matches Some(v) ==> v as int == attributes_val(s@),
{
    let n: usize = s.unicode_len();
    if n != 4 {
        return None;
    }
    if s.get_char(0) != '0' || s.get_char(1) != 'x' || s.get_char(3) != '0' {
        return None;
    }
    let c = s.get_char(2);
    if c == '8' || c == 'a' || c == 'c' || c == 'e' || c == 'A' || c == 'C' || c == 'E' {
        match hex_digit(c) {
            Some(v) => Some(v * 16),
            None => None,
        }
    } else {
        None
    }
}

/// One hex digit as a character, lower case.
fn hex_char(v: u8) -> (c: char)
    requires
        v < 16,
    ensures
        c == spec_hex_char(v as int),
{
    if v == 0 {
        '0'
    } else if v == 1 {
        '1'
    } else if v == 2 {
        '2'
    } else if v == 3 {
        '3'
    } else if v == 4 {
        '4'
    } else if v == 5 {
        '5'
    } else if v == 6 {
        '6'
    } else if v == 7 {
        '7'
    } else if v == 8 {
        '8'
    } else if v == 9 {
        '9'
    } else if v == 10 {
        'a'
    } else if v == 11 {
        'b'
    } else if v == 12 {
        'c'
    } else if v == 13 {
        'd'
    } else if v == 14 {
        'e'
    } else {
        'f'
    }
}

/// Writes a 16-bit value as its canonical `0x`-prefixed four-digit text.
fn format_hex4(v: u16) -> (r: String)
    ensures
        r@ == spec_hex4_text(v as int),
{
    let mut cs: Vec<char> = Vec::new();
    cs.push('0');
    cs.push('x');
    cs.push(hex_char(((v / 0x1000) % 16) as u8));
    cs.push(hex_char(((v / 0x100) % 16) as u8));
    cs.push(hex_char(((v / 16) % 16) as u8));
    cs.push(hex_char((v % 16) as u8));
    let r = chars_to_string(&cs);
    proof {
        assert(r@ =~= spec_hex4_text(v as int));
    }
    r
}

/// Writes a byte as its canonical `0x`-prefixed two-digit text.
fn format_hex_byte(v: u8) -> (r: String)
    ensures
        r@ == spec_hex_byte_text(v as int),
{
    let mut cs: Vec<char> = Vec::new();
    cs.push('0');
    cs.push('x');
    cs.push(hex_char((v / 16) % 16));
    cs.push(hex_char(v % 16));
    let r = chars_to_string(&cs);
    proof {
        assert(r@ =~= spec_hex_byte_text(v as int));
    }
    r
}

/// Copies an optional text.
fn clone_opt_text(o: &Option<String>) -> (r: Option<String>)
    ensures
        opt_text(r) == opt_text(*o),
{
    match o {
        Some(s) => Some(s.clone()),
        None => None,
    }
}

/// Checks one front-end string against its field's length and ASCII
/// constraints and takes it into the format's string type.
fn check_string_field(o: &Option<String>, i: usize) -> (r: Result<Option<OtpString>, ()>)
    requires
        is_str_index(i as int),
    ensures
        r matches Ok(v) ==> spec_fe_str_wf(opt_text(*o), i as int) && opt_str_view(v) == opt_text(
            *o,
        ),
        r is Err <==> !spec_fe_str_wf(opt_text(*o), i as int),
{
    match o {
        Some(s) => {
            let f = Field::descriptor(i);
            let max: usize = match f.max_length() {
                Some(m) => m,
                None => {
                    proof {
                        assert(false);
                    }
                    0
                },
            };
            let n: usize = s.as_str().unicode_len();
            if n > max {
                return Err(());
            }
            if !f.supports_utf16() && !s.as_str().is_ascii() {
                return Err(());
            }
            proof {
                assert(field_max_len(i as int) <= 127);
                if is_ascii_chars(s@) {
                    lemma_utf16_units_ascii(s@);
                } else {
                    lemma_utf16_units_at_most_double(s@);
                }
            }
            match OtpString::new(s.clone()) {
                Ok(os) => Ok(Some(os)),
                Err(_) => {
                    proof {
                        assert(false);
                    }
                    Err(())
                },
            }
        },
        None => Ok(None),
    }
}

/// Builds the record a front end describes.  The missing half of the
/// attribute pair is first filled with its documented default.  Fails with
/// the lowest malformed field if any value breaks its format, and with the
/// collected validation issues if the well-formed values do not make a
/// clean record; a returned record is always clean.
pub fn record_from_front_end(fe: &FrontEnd) -> (r: Result<WhiteLabelStruct, Error>)
    ensures
        ({
            let c = spec_correct(fe@);
            let rec = spec_record_of_front_end(c);
            &&& (r is Ok <==> spec_fe_wf(c) && spec_validation(rec).len() == 0)
            &&& (r matches Ok(w) ==> w@ == rec)
            &&& (!spec_fe_wf(c) ==> r == Err::<WhiteLabelStruct, Error>(
                Error::InvalidFrontEndValue(spec_first_bad_field(c) as usize),
            ))
            &&& (spec_fe_wf(c) && spec_validation(rec).len() != 0 ==> (
            r matches Err(e) && e matches Error::InvalidWhiteLabelData(ws)
                && ws@ == spec_validation(rec)))
        }),
{
    let ghost c = spec_correct(fe@);
    let mut attributes: Option<String> = clone_opt_text(&fe.attributes);
    let mut max_power: Option<String> = clone_opt_text(&fe.max_power);
    if fe.max_power.is_some() && fe.attributes.is_none() {
        let cs: Vec<char> = vec!['0', 'x', '8', '0'];
        attributes = Some(chars_to_string(&cs));
        proof {
            assert(opt_text(attributes)->0 =~= default_attributes_text());
        }
    }
    if fe.attributes.is_some() && fe.max_power.is_none() {
        let cs: Vec<char> = vec!['0', 'x', 'f', 'a'];
        max_power = Some(chars_to_string(&cs));
        proof {
            assert(opt_text(max_power)->0 =~= default_max_power_text());
        }
    }
    proof {
        assert(opt_text(attributes) == c.attributes);
        assert(opt_text(max_power) == c.max_power);
    }
    let vendor_id: Option<u16> = match &fe.vid {
        Some(s) => match parse_hex4(s.as_str()) {
            Some(v) => Some(v),
            None => {
                return Err(Error::InvalidFrontEndValue(0));
            },
        },
        None => None,
    };
    let product_id: Option<u16> = match &fe.pid {
        Some(s) => match parse_hex4(s.as_str()) {
            Some(v) => Some(v),
            None => {
                return Err(Error::InvalidFrontEndValue(1));
            },
        },
        None => None,
    };
    let bcd_device: Option<u16> = match &fe.bcd {
        Some(t) => {
            let whole: u8 = t.0;
            let tenths: u8 = t.1;
            let hundredths: u8 = t.2;
            if whole > 99 || tenths > 9 || hundredths > 9 {
                return Err(Error::InvalidFrontEndValue(2));
            }
            Some(
                ((whole / 10) as u16) * 0x1000 + ((whole % 10) as u16) * 0x100 + (tenths as u16)
                    * 16 + (hundredths as u16),
            )
        },
        None => None,
    };
    let language_id: Option<u16> = match &fe.lang_id {
        Some(s) => match parse_hex4(s.as_str()) {
            Some(v) => Some(v),
            None => {
                return Err(Error::InvalidFrontEndValue(3));
            },
        },
        None => None,
    };
    let manufacturer = match check_string_field(&fe.manufacturer, 4) {
        Ok(v) => v,
        Err(()) => {
            return Err(Error::InvalidFrontEndValue(4));
        },
    };
    let product = match check_string_field(&fe.product, 5) {
        Ok(v) => v,
        Err(()) => {
            return Err(Error::InvalidFrontEndValue(5));
        },
    };
    let serial_number = match check_string_field(&fe.serial_number, 6) {
        Ok(v) => v,
        Err(()) => {
            return Err(Error::InvalidFrontEndValue(6));
        },
    };
    let attr_power: Option<u16> = match (&attributes, &max_power) {
        (Some(a), Some(p)) => {
            let av: u8 = match parse_attributes(a.as_str()) {
                Some(v) => v,
                None => {
                    return Err(Error::InvalidFrontEndValue(7));
                },
            };
            let pv: u8 = match parse_hex_byte(p.as_str()) {
                Some(v) => v,
                None => {
                    return Err(Error::InvalidFrontEndValue(7));
                },
            };
            Some((pv as u16) * 256 + (av as u16))
        },
        (None, None) => None,
        _ => {
            proof {
                assert(false);
            }
            None
        },
    };
    let volume_label = match check_string_field(&fe.volume_label, 8) {
        Ok(v) => v,
        Err(()) => {
            return Err(Error::InvalidFrontEndValue(8));
        },
    };
    let scsi_vendor = match check_string_field(&fe.scsi_vendor, 9) {
        Ok(v) => v,
        Err(()) => {
            return Err(Error::InvalidFrontEndValue(9));
        },
    };
    let scsi_product = match check_string_field(&fe.scsi_product, 10) {
        Ok(v) => v,
        Err(()) => {
            return Err(Error::InvalidFrontEndValue(10));
        },
    };
    let scsi_version = match check_string_field(&fe.scsi_version, 11) {
        Ok(v) => v,
        Err(()) => {
            return Err(Error::InvalidFrontEndValue(11));
        },
    };
    let redirect_url = match check_string_field(&fe.redirect_url, 12) {
        Ok(v) => v,
        Err(()) => {
            return Err(Error::InvalidFrontEndValue(12));
        },
    };
    let redirect_name = match check_string_field(&fe.redirect_name, 13) {
        Ok(v) => v,
        Err(()) => {
            return Err(Error::InvalidFrontEndValue(13));
        },
    };
    let uf2_model = match check_string_field(&fe.uf2_model, 14) {
        Ok(v) => v,
        Err(()) => {
            return Err(Error::InvalidFrontEndValue(14));
        },
    };
    let uf2_board_id = match check_string_field(&fe.uf2_board_id, 15) {
        Ok(v) => v,
        Err(()) => {
            return Err(Error::InvalidFrontEndValue(15));
        },
    };
    proof {
        assert(spec_fe_wf(c));
    }
    let mut rec = WhiteLabelStruct::from_parts(
        vendor_id,
        product_id,
        bcd_device,
        language_id,
        attr_power,
        manufacturer,
        product,
        serial_number,
        volume_label,
        scsi_vendor,
        scsi_product,
        scsi_version,
        redirect_url,
        redirect_name,
        uf2_model,
        uf2_board_id,
        Vec::new(),
    );
    proof {
        assert(rec@ =~= spec_record_of_front_end(c));
    }
    rec.validate_fields();
    if rec.is_clean() {
        Ok(rec)
    } else {
        let ws = clone_warnings(rec.warnings());
        Err(Error::InvalidWhiteLabelData(ws))
    }
}

/// Writes a record back in its front-end form: canonical hex texts, the
/// revision as decimal digits, the strings as they stand.
#[verifier::rlimit(100)]
pub fn front_end_of_record(w: &WhiteLabelStruct) -> (fe: FrontEnd)
    ensures
        fe@ == spec_front_end_of_record(w@),
{
    let vid = match w.vid() {
        Some(v) => Some(format_hex4(v)),
        None => None,
    };
    let pid = match w.pid() {
        Some(v) => Some(format_hex4(v)),
        None => None,
    };
    let bcd = match w.bcd_device() {
        Some(v) => {
            let whole: u16 = ((v / 0x1000) % 16) * 10 + (v / 0x100) % 16;
            Some(((whole as u8), (((v / 16) % 16) as u8), ((v % 16) as u8)))
        },
        None => None,
    };
    let lang_id = match w.language_id() {
        Some(v) => Some(format_hex4(v)),
        None => None,
    };
    let attributes = match w.attributes() {
        Some(v) => Some(format_hex_byte(v)),
        None => None,
    };
    let max_power = match w.power() {
        Some(v) => Some(format_hex_byte(v)),
        None => None,
    };
    let manufacturer = match w.manufacturer() {
        Some(s) => Some(s.clone()),
        None => None,
    };
    let product = match w.product() {
        Some(s) => Some(s.clone()),
        None => None,
    };
    let serial_number = match w.serial_number() {
        Some(s) => Some(s.clone()),
        None => None,
    };
    let volume_label = match w.volume_label() {
        Some(s) => Some(s.clone()),
        None => None,
    };
    let scsi_vendor = match w.scsi_vendor() {
        Some(s) => Some(s.clone()),
        None => None,
    };
    let scsi_product = match w.scsi_product() {
        Some(s) => Some(s.clone()),
        None => None,
    };
    let scsi_version = match w.scsi_version() {
        Some(s) => Some(s.clone()),
        None => None,
    };
    let redirect_url = match w.redirect_url() {
        Some(s) => Some(s.clone()),
        None => None,
    };
    let redirect_name = match w.redirect_name() {
        Some(s) => Some(s.clone()),
        None => None,
    };
    let uf2_model = match w.uf2_model() {
        Some(s) => Some(s.clone()),
        None => None,
    };
    let uf2_board_id = match w.uf2_board_id() {
        Some(s) => Some(s.clone()),
        None => None,
    };
    FrontEnd {
        vid,
        pid,
        bcd,
        lang_id,
        manufacturer,
        product,
        serial_number,
        attributes,
        max_power,
        volume_label,
        scsi_vendor,
        scsi_product,
        scsi_version,
        redirect_url,
        redirect_name,
        uf2_model,
        uf2_board_id,
    }
}

// The four nibbles of a 16-bit value reassemble it.
proof fn lemma_nibbles(v: int)
    requires
        0 <= v < 0x10000,
    ensures
        v == ((v / 0x1000) % 16) * 0x1000 + ((v / 0x100) % 16) * 0x100 + ((v / 16) % 16) * 16 + v
            % 16,
{
    vstd::arithmetic::div_mod::lemma_fundamental_div_mod(v, 16);
    vstd::arithmetic::div_mod::lemma_fundamental_div_mod(v / 16, 16);
    vstd::arithmetic::div_mod::lemma_fundamental_div_mod(v / 0x100, 16);
    vstd::arithmetic::div_mod::lemma_fundamental_div_mod(v / 0x1000, 16);
    vstd::arithmetic::div_mod::lemma_div_denominator(v, 16, 16);
    vstd::arithmetic::div_mod::lemma_div_denominator(v, 0x100, 16);
    assert((v / 16) / 16 == v / 0x100);
    assert((v / 0x100) / 16 == v / 0x1000);
    assert(v / 0x1000 < 16);
    assert((v / 0x1000) % 16 == v / 0x1000);
}

// Writing a hex digit and reading it back yields the digit.
proof fn lemma_hex_char_val(v: int)
    requires
        0 <= v < 16,
    ensures
        hex_digit_wf(spec_hex_char(v)),
        hex_digit_val(spec_hex_char(v)) == v,
{
}

// A 16-bit value round-trips through its canonical hex text.
proof fn lemma_hex4_round(v: int)
    requires
        0 <= v < 0x10000,
    ensures
        hex4_wf(spec_hex4_text(v)),
        hex4_val(spec_hex4_text(v)) == v,
{
    lemma_hex_char_val((v / 0x1000) % 16);
    lemma_hex_char_val((v / 0x100) % 16);
    lemma_hex_char_val((v / 16) % 16);
    lemma_hex_char_val(v % 16);
    lemma_nibbles(v);
}

// A byte round-trips through its canonical hex text.
proof fn lemma_hex_byte_round(v: int)
    requires
        0 <= v < 256,
    ensures
        hex_byte_wf(spec_hex_byte_text(v)),
        hex_byte_val(spec_hex_byte_text(v)) == v,
{
    lemma_hex_char_val((v / 16) % 16);
    lemma_hex_char_val(v % 16);
    vstd::arithmetic::div_mod::lemma_fundamental_div_mod(v, 16);
    assert(v / 16 < 16);
    assert((v / 16) % 16 == v / 16);
}

// A clean attributes byte round-trips through its canonical hex text, and
// that text matches the accepted attributes pattern.
proof fn lemma_attributes_round(a: int)
    requires
        0 <= a < 256,
        a / 128 == 1,
        a % 32 == 0,
    ensures
        attributes_wf(spec_hex_byte_text(a)),
        attributes_val(spec_hex_byte_text(a)) == a,
{
    vstd::arithmetic::div_mod::lemma_fundamental_div_mod(a, 128);
    vstd::arithmetic::div_mod::lemma_fundamental_div_mod(a, 32);
    assert(a == 128 || a == 160 || a == 192 || a == 224);
    lemma_hex_byte_round(a);
}

// A spread of validation issues can only grow with the field index.
proof fn lemma_validation_upto_len(r: RecordView, i: int, j: int)
    requires
        0 <= i <= j <= 16,
    ensures
        spec_validation_upto(r, j).len() >= spec_validation_upto(r, i).len(),
    decreases j - i,
{
    if i < j {
        lemma_validation_upto_len(r, i, j - 1);
    }
}

/// In a record with no validation issues, every single field is free of
/// issues.
pub proof fn lemma_validation_empty(r: RecordView, i: int)
    requires
        spec_validation(r).len() == 0,
        0 <= i < 16,
    ensures
        spec_field_issue(r, i) is None,
{
    if spec_field_issue(r, i) is Some {
        assert(spec_validation_upto(r, i + 1).len() >= 1);
        lemma_validation_upto_len(r, i + 1, 16);
    }
}

// A packed BCD revision with every digit nibble in range round-trips
// through its decimal digit triple.
proof fn lemma_bcd_round(v: u16)
    requires
        (v as int / 0x1000) % 16 <= 9,
        (v as int / 0x100) % 16 <= 9,
        (v as int / 16) % 16 <= 9,
        v as int % 16 <= 9,
    ensures
        bcd_triple_wf(bcd_split(v)),
        bcd_pack(bcd_split(v)) == v,
{
    let d4 = (v as int / 0x1000) % 16;
    let d3 = (v as int / 0x100) % 16;
    let hi = d4 * 10 + d3;
    assert(hi / 10 == d4 && hi % 10 == d3) by {
        vstd::arithmetic::div_mod::lemma_div_multiples_vanish_fancy(d4, d3, 10);
        assert(10 * d4 + d3 == d4 * 10 + d3);
        vstd::arithmetic::div_mod::lemma_fundamental_div_mod(hi, 10);
    }
    lemma_nibbles(v as int);
}

// One string field of a clean record, written back, fits its field.
proof fn lemma_clean_str_wf(r: RecordView, i: int)
    requires
        spec_validation(r).len() == 0,
        is_str_index(i),
    ensures
        spec_fe_str_wf(str_field(r, i), i),
{
    lemma_validation_empty(r, i);
    match str_field(r, i) {
        Some(s) => {
            lemma_utf16_units_len(s);
        },
        None => {},
    }
}

/// Lossless transcoding: a record whose values are clean, written in its
/// front-end form and read back, is reproduced exactly.  No correction
/// applies to the written form, every written value is well formed, and
/// the record it describes is the original.  (The hundreds digit of the
/// packed revision must be a decimal digit; validation does not inspect
/// that nibble, and a revision carrying a hex digit there has no decimal
/// writing.)
pub proof fn lemma_front_end_round_trip(r: RecordView)
    requires
        spec_validation(r).len() == 0,
        r.warnings.len() == 0,
        match r.bcd_device {
            Some(v) => (v as int / 0x100) % 16 <= 9,
            None => true,
        },
    ensures
        spec_correct(spec_front_end_of_record(r)) == spec_front_end_of_record(r),
        spec_fe_wf(spec_front_end_of_record(r)),
        spec_validation(spec_record_of_front_end(spec_front_end_of_record(r))).len() == 0,
        spec_record_of_front_end(spec_front_end_of_record(r)) == r,
{
    let fe = spec_front_end_of_record(r);
    assert(spec_correct(fe) =~= fe);
    match r.vendor_id {
        Some(v) => lemma_hex4_round(v as int),
        None => {},
    }
    match r.product_id {
        Some(v) => lemma_hex4_round(v as int),
        None => {},
    }
    match r.language_id {
        Some(v) => lemma_hex4_round(v as int),
        None => {},
    }
    match r.bcd_device {
        Some(v) => {
            lemma_validation_empty(r, 2);
            lemma_bcd_round(v);
        },
        None => {},
    }
    match r.attr_power {
        Some(v) => {
            lemma_validation_empty(r, 7);
            let attr = v as int % 256;
            let power = v as int / 256;
            lemma_attributes_round(attr);
            lemma_hex_byte_round(power);
            vstd::arithmetic::div_mod::lemma_fundamental_div_mod(v as int, 256);
        },
        None => {},
    }
    lemma_clean_str_wf(r, 4);
    lemma_clean_str_wf(r, 5);
    lemma_clean_str_wf(r, 6);
    lemma_clean_str_wf(r, 8);
    lemma_clean_str_wf(r, 9);
    lemma_clean_str_wf(r, 10);
    lemma_clean_str_wf(r, 11);
    lemma_clean_str_wf(r, 12);
    lemma_clean_str_wf(r, 13);
    lemma_clean_str_wf(r, 14);
    lemma_clean_str_wf(r, 15);
    assert(spec_fe_field_wf(fe, 0));
    assert(spec_fe_field_wf(fe, 1));
    assert(spec_fe_field_wf(fe, 2));
    assert(spec_fe_field_wf(fe, 3));
    assert(spec_fe_field_wf(fe, 4));
    assert(spec_fe_field_wf(fe, 5));
    assert(spec_fe_field_wf(fe, 6));
    assert(spec_fe_field_wf(fe, 7));
    assert(spec_fe_field_wf(fe, 8));
    assert(spec_fe_field_wf(fe, 9));
    assert(spec_fe_field_wf(fe, 10));
    assert(spec_fe_field_wf(fe, 11));
    assert(spec_fe_field_wf(fe, 12));
    assert(spec_fe_field_wf(fe, 13));
    assert(spec_fe_field_wf(fe, 14));
    assert(spec_fe_field_wf(fe, 15));
    assert(spec_fe_wf(fe));
    assert(spec_record_of_front_end(fe) =~= r);
}

} // verus!

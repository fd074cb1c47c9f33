//! Recovering a record from a raw row image plus its presence bitmap.
//!
//! The parser is tolerant by design: it fails only when fewer rows than the
//! fixed 16-row header were supplied.  Everything else that looks wrong is
//! reported as a warning and decoding proceeds — except that, when the rows
//! cannot hold every string the presence bits announce, no strings are
//! extracted at all.

use vstd::prelude::*;

use crate::fields::{flag_bit, Field};
use crate::record::{
    clone_warnings, opt_str_view, RecordView, WhiteLabelStruct,
};
use crate::strdef::{
    spec_decode_string_field, str_row_count, strdef_row_span, OtpString, SpecStrDecode,
};
use crate::{Error, Warning};

verus! {

/// The mathematical model of a parse outcome: the record recovered and the
/// warnings met on the way (also stored inside the record).
pub struct ParseView {
    pub record: RecordView,
    pub warnings: Seq<Warning>,
}

/// Whether the address-valid bit (bit 22) of the presence bitmap is set.
pub open spec fn spec_addr_valid_bit(flags: u32) -> bool {
    (flags as int / 0x400000) % 2 == 1
}

/// Whether the DP/DM-swap indicator bit (bit 23) is set.
pub open spec fn spec_dpdm_bit(flags: u32) -> bool {
    (flags as int / 0x800000) % 2 == 1
}

/// Whether any reserved bit (16-21 or 24-31) is set: every bit above the
/// sixteen presence bits other than the address-valid and DP/DM-swap bits.
pub open spec fn spec_reserved_bits_set(flags: u32) -> bool {
    (flags as int / 0x10000) % 64 != 0 || flags as int / 0x1000000 != 0
}

/// The low 16 bits of the presence bitmap: the per-field presence mask.
pub open spec fn spec_low16(flags: u32) -> u16 {
    (flags as int % 0x10000) as u16
}

/// The warnings raised by the bitmap's status bits, in order.
pub open spec fn spec_flag_warnings(flags: u32) -> Seq<Warning> {
    (if !spec_addr_valid_bit(flags) {
        seq![Warning::AddrValidBitClear]
    } else {
        Seq::empty()
    }) + (if spec_dpdm_bit(flags) {
        seq![Warning::DpDmSwapSet]
    } else {
        Seq::empty()
    }) + (if spec_reserved_bits_set(flags) {
        seq![Warning::ReservedBitsSet]
    } else {
        Seq::empty()
    })
}

/// The plain 16-bit field recovered at index `i`: the row's value when the
/// presence bit is set, nothing otherwise.
pub open spec fn spec_u16_value(rows: Seq<u16>, flags16: u16, i: int) -> Option<u16> {
    if flag_bit(flags16, i) {
        Some(rows[i])
    } else {
        None
    }
}

/// The warning a plain field raises: stale data behind a clear presence
/// bit.
pub open spec fn spec_u16_warn(rows: Seq<u16>, flags16: u16, i: int) -> Seq<Warning> {
    if !flag_bit(flags16, i) && rows[i] != 0 {
        seq![Warning::StaleData { field: i as usize, row: rows[i] }]
    } else {
        Seq::empty()
    }
}

/// The rows the descriptor at index `i` announces, when its presence bit is
/// set.
pub open spec fn spec_span_term(rows: Seq<u16>, flags16: u16, i: int) -> int {
    if flag_bit(flags16, i) {
        strdef_row_span(rows[i])
    } else {
        0int
    }
}

/// The total data-row span the presence bits announce across all eleven
/// string descriptors.
pub open spec fn spec_expected_span(rows: Seq<u16>, flags16: u16) -> int {
    spec_span_term(rows, flags16, 4) + spec_span_term(rows, flags16, 5) + spec_span_term(
        rows,
        flags16,
        6,
    ) + spec_span_term(rows, flags16, 8) + spec_span_term(rows, flags16, 9) + spec_span_term(
        rows,
        flags16,
        10,
    ) + spec_span_term(rows, flags16, 11) + spec_span_term(rows, flags16, 12) + spec_span_term(
        rows,
        flags16,
        13,
    ) + spec_span_term(rows, flags16, 14) + spec_span_term(rows, flags16, 15)
}

/// The outcome of decoding the string field at index `i`, with the
/// UTF-16 permission its field declares.
pub open spec fn spec_dec(rows: Seq<u16>, flags16: u16, i: int) -> SpecStrDecode {
    spec_decode_string_field(rows, flags16, i, crate::fields::field_utf16_allowed(i))
}

/// The warnings of all eleven string decodes, in field-index order.
pub open spec fn spec_string_warnings(rows: Seq<u16>, flags16: u16) -> Seq<Warning> {
    spec_dec(rows, flags16, 4).warnings + spec_dec(rows, flags16, 5).warnings + spec_dec(
        rows,
        flags16,
        6,
    ).warnings + spec_dec(rows, flags16, 8).warnings + spec_dec(rows, flags16, 9).warnings
        + spec_dec(rows, flags16, 10).warnings + spec_dec(rows, flags16, 11).warnings + spec_dec(
        rows,
        flags16,
        12,
    ).warnings + spec_dec(rows, flags16, 13).warnings + spec_dec(rows, flags16, 14).warnings
        + spec_dec(rows, flags16, 15).warnings
}

/// The data rows one decoded string would occupy if laid out again.
pub open spec fn spec_actual_term(rows: Seq<u16>, flags16: u16, i: int) -> int {
    match spec_dec(rows, flags16, i).value {
        Some(s) => str_row_count(s),
        None => 0int,
    }
}

/// The data-row span the decoded strings actually occupy.
pub open spec fn spec_actual_span(rows: Seq<u16>, flags16: u16) -> int {
    spec_actual_term(rows, flags16, 4) + spec_actual_term(rows, flags16, 5) + spec_actual_term(
        rows,
        flags16,
        6,
    ) + spec_actual_term(rows, flags16, 8) + spec_actual_term(rows, flags16, 9) + spec_actual_term(
        rows,
        flags16,
        10,
    ) + spec_actual_term(rows, flags16, 11) + spec_actual_term(rows, flags16, 12)
        + spec_actual_term(rows, flags16, 13) + spec_actual_term(rows, flags16, 14)
        + spec_actual_term(rows, flags16, 15)
}

/// The record recovered when the rows cannot hold every announced string:
/// plain fields only, no strings at all.
pub open spec fn spec_parse_u16_only(rows: Seq<u16>, flags16: u16, warnings: Seq<Warning>) -> RecordView {
    RecordView {
        vendor_id: spec_u16_value(rows, flags16, 0),
        product_id: spec_u16_value(rows, flags16, 1),
        bcd_device: spec_u16_value(rows, flags16, 2),
        language_id: spec_u16_value(rows, flags16, 3),
        attr_power: spec_u16_value(rows, flags16, 7),
        manufacturer: None,
        product: None,
        serial_number: None,
        volume_label: None,
        scsi_vendor: None,
        scsi_product: None,
        scsi_version: None,
        redirect_url: None,
        redirect_name: None,
        uf2_model: None,
        uf2_board_id: None,
        warnings,
    }
}

/// The record recovered on the full path: plain fields and every decoded
/// string.
pub open spec fn spec_parse_full(rows: Seq<u16>, flags16: u16, warnings: Seq<Warning>) -> RecordView {
    RecordView {
        vendor_id: spec_u16_value(rows, flags16, 0),
        product_id: spec_u16_value(rows, flags16, 1),
        bcd_device: spec_u16_value(rows, flags16, 2),
        language_id: spec_u16_value(rows, flags16, 3),
        attr_power: spec_u16_value(rows, flags16, 7),
        manufacturer: spec_dec(rows, flags16, 4).value,
        product: spec_dec(rows, flags16, 5).value,
        serial_number: spec_dec(rows, flags16, 6).value,
        volume_label: spec_dec(rows, flags16, 8).value,
        scsi_vendor: spec_dec(rows, flags16, 9).value,
        scsi_product: spec_dec(rows, flags16, 10).value,
        scsi_version: spec_dec(rows, flags16, 11).value,
        redirect_url: spec_dec(rows, flags16, 12).value,
        redirect_name: spec_dec(rows, flags16, 13).value,
        uf2_model: spec_dec(rows, flags16, 14).value,
        uf2_board_id: spec_dec(rows, flags16, 15).value,
        warnings,
    }
}

/// The warnings gathered before the string stage: status bits, then the
/// five plain fields in index order.
pub open spec fn spec_prelude_warnings(flags: u32, rows: Seq<u16>) -> Seq<Warning> {
    spec_flag_warnings(flags) + spec_u16_warn(rows, spec_low16(flags), 0) + spec_u16_warn(
        rows,
        spec_low16(flags),
        1,
    ) + spec_u16_warn(rows, spec_low16(flags), 2) + spec_u16_warn(rows, spec_low16(flags), 3)
        + spec_u16_warn(rows, spec_low16(flags), 7)
}

/// Parsing a row image: fails only when fewer than 16 rows were supplied;
/// otherwise yields exactly this record and warning list.
pub open spec fn spec_parse(flags: u32, rows: Seq<u16>) -> Option<ParseView> {
    if rows.len() < 16 {
        None
    } else {
        let flags16 = spec_low16(flags);
        let w1 = spec_prelude_warnings(flags, rows);
        let need = 16 + spec_expected_span(rows, flags16);
        if rows.len() < need {
            let w2 = w1 + seq![
                Warning::RowsTooShortForStrings { have: rows.len() as usize, need: need as usize },
            ];
            Some(ParseView { record: spec_parse_u16_only(rows, flags16, w2), warnings: w2 })
        } else {
            let w2 = w1 + spec_string_warnings(rows, flags16);
            let expected2 = 16 + spec_actual_span(rows, flags16);
            let w3 = if rows.len() < expected2 {
                w2 + seq![
                    Warning::RowCountMismatch {
                        have: rows.len() as usize,
                        expected: expected2 as usize,
                    },
                ]
            } else {
                w2
            };
            Some(ParseView { record: spec_parse_full(rows, flags16, w3), warnings: w3 })
        }
    }
}

/// The outcome of parsing a row image: the recovered record and the
/// warnings met on the way.
#[derive(Debug)]
pub struct OtpParseResult {
    white_label: WhiteLabelStruct,
    warnings: Vec<Warning>,
}

impl View for OtpParseResult {
    type V = ParseView;

    closed spec fn view(&self) -> ParseView {
        ParseView { record: self.white_label@, warnings: self.warnings@ }
    }
}

impl OtpParseResult {
    /// True when parsing raised no warnings.
    pub fn is_clean(&self) -> (r: bool)
        ensures
            r == (self@.warnings.len() == 0),
    {
        self.warnings.len() == 0
    }

    /// The recovered record.
    pub fn white_label(&self) -> (r: &WhiteLabelStruct)
        ensures
            r@ == self@.record,
    {
        &self.white_label
    }

    /// The warnings met while parsing.
    pub fn warnings(&self) -> (r: &Vec<Warning>)
        ensures
            r@ == self@.warnings,
    {
        &self.warnings
    }
}

/// Extracts a plain 16-bit field, warning about stale data behind a clear
/// presence bit.
pub fn extract_u16_field(
    rows: &[u16],
    flags16: u16,
    field: &Field,
    warnings: &mut Vec<Warning>,
) -> (r: Option<u16>)
    requires
        rows@.len() >= 16,
    ensures
        r == spec_u16_value(rows@, flags16, field.spec_index()),
        final(warnings)@ == old(warnings)@ + spec_u16_warn(rows@, flags16, field.spec_index()),
{
    let i = field.index();
    let value = rows[i];
    if crate::fields::flag_bit_set(flags16, i) {
        proof {
            assert(warnings@ =~= warnings@ + Seq::<Warning>::empty());
        }
        Some(value)
    } else {
        if value != 0 {
            warnings.push(Warning::StaleData { field: i, row: value });
        } else {
            proof {
                assert(warnings@ =~= warnings@ + Seq::<Warning>::empty());
            }
        }
        None
    }
}

// The announced span of one string descriptor, when its bit is set.
fn span_term(rows: &[u16], flags16: u16, i: usize) -> (n: usize)
    requires
        rows@.len() >= 16,
        i < 16,
    ensures
        n as int == spec_span_term(rows@, flags16, i as int),
        n <= 127,
{
    if crate::fields::flag_bit_set(flags16, i) {
        OtpString::row_count_from_strdef(rows[i]) as usize
    } else {
        0
    }
}

// The data rows one decoded string would occupy if laid out again.
fn actual_term(o: &Option<OtpString>) -> (n: usize)
    ensures
        n as int == (match opt_str_view(*o) {
            Some(s) => str_row_count(s),
            None => 0int,
        }),
        n <= 255,
{
    match o {
        Some(s) => s.otp_row_count() as usize,
        None => 0,
    }
}

// Unwraps a string-field decode that cannot have failed.
fn dec_value(r: Result<Option<OtpString>, Error>) -> (v: Option<OtpString>)
    requires
        r is Ok,
    ensures
        Ok::<Option<OtpString>, Error>(v) == r,
{
    match r {
        Ok(v) => v,
        Err(_) => {
            proof {
                assert(false);
            }
            None
        },
    }
}


// The eleven decoded string fields.
struct DecodedStrings {
    manufacturer: Option<OtpString>,
    product: Option<OtpString>,
    serial_number: Option<OtpString>,
    volume_label: Option<OtpString>,
    scsi_vendor: Option<OtpString>,
    scsi_product: Option<OtpString>,
    scsi_version: Option<OtpString>,
    redirect_url: Option<OtpString>,
    redirect_name: Option<OtpString>,
    uf2_model: Option<OtpString>,
    uf2_board_id: Option<OtpString>,
}

// Decodes all eleven string fields, in field-index order.
#[verifier::rlimit(100)]
fn decode_all_strings(rows: &[u16], flags16: u16, warnings: &mut Vec<Warning>) -> (d:
    DecodedStrings)
    requires
        rows@.len() >= 16,
    ensures
        opt_str_view(d.manufacturer) == spec_dec(rows@, flags16, 4).value,
        opt_str_view(d.product) == spec_dec(rows@, flags16, 5).value,
        opt_str_view(d.serial_number) == spec_dec(rows@, flags16, 6).value,
        opt_str_view(d.volume_label) == spec_dec(rows@, flags16, 8).value,
        opt_str_view(d.scsi_vendor) == spec_dec(rows@, flags16, 9).value,
        opt_str_view(d.scsi_product) == spec_dec(rows@, flags16, 10).value,
        opt_str_view(d.scsi_version) == spec_dec(rows@, flags16, 11).value,
        opt_str_view(d.redirect_url) == spec_dec(rows@, flags16, 12).value,
        opt_str_view(d.redirect_name) == spec_dec(rows@, flags16, 13).value,
        opt_str_view(d.uf2_model) == spec_dec(rows@, flags16, 14).value,
        opt_str_view(d.uf2_board_id) == spec_dec(rows@, flags16, 15).value,
        final(warnings)@ == old(warnings)@ + spec_string_warnings(rows@, flags16),
{
    let ghost base = warnings@;
    let ghost mut acc: Seq<Warning> = Seq::empty();
    let manufacturer = dec_value(
        OtpString::from_otp_data(rows, flags16, &Field::descriptor(4), true, warnings),
    );
    proof {
        acc = spec_dec(rows@, flags16, 4).warnings;
        assert(warnings@ =~= base + acc);
    }
    let product = dec_value(
        OtpString::from_otp_data(rows, flags16, &Field::descriptor(5), true, warnings),
    );
    proof {
        acc = acc + spec_dec(rows@, flags16, 5).warnings;
        assert(warnings@ =~= base + acc);
    }
    let serial_number = dec_value(
        OtpString::from_otp_data(rows, flags16, &Field::descriptor(6), true, warnings),
    );
    proof {
        acc = acc + spec_dec(rows@, flags16, 6).warnings;
        assert(warnings@ =~= base + acc);
    }
    let volume_label = dec_value(
        OtpString::from_otp_data(rows, flags16, &Field::descriptor(8), false, warnings),
    );
    proof {
        acc = acc + spec_dec(rows@, flags16, 8).warnings;
        assert(warnings@ =~= base + acc);
    }
    let scsi_vendor = dec_value(
        OtpString::from_otp_data(rows, flags16, &Field::descriptor(9), false, warnings),
    );
    proof {
        acc = acc + spec_dec(rows@, flags16, 9).warnings;
        assert(warnings@ =~= base + acc);
    }
    let scsi_product = dec_value(
        OtpString::from_otp_data(rows, flags16, &Field::descriptor(10), false, warnings),
    );
    proof {
        acc = acc + spec_dec(rows@, flags16, 10).warnings;
        assert(warnings@ =~= base + acc);
    }
    let scsi_version = dec_value(
        OtpString::from_otp_data(rows, flags16, &Field::descriptor(11), false, warnings),
    );
    proof {
        acc = acc + spec_dec(rows@, flags16, 11).warnings;
        assert(warnings@ =~= base + acc);
    }
    let redirect_url = dec_value(
        OtpString::from_otp_data(rows, flags16, &Field::descriptor(12), false, warnings),
    );
    proof {
        acc = acc + spec_dec(rows@, flags16, 12).warnings;
        assert(warnings@ =~= base + acc);
    }
    let redirect_name = dec_value(
        OtpString::from_otp_data(rows, flags16, &Field::descriptor(13), false, warnings),
    );
    proof {
        acc = acc + spec_dec(rows@, flags16, 13).warnings;
        assert(warnings@ =~= base + acc);
    }
    let uf2_model = dec_value(
        OtpString::from_otp_data(rows, flags16, &Field::descriptor(14), false, warnings),
    );
    proof {
        acc = acc + spec_dec(rows@, flags16, 14).warnings;
        assert(warnings@ =~= base + acc);
    }
    let uf2_board_id = dec_value(
        OtpString::from_otp_data(rows, flags16, &Field::descriptor(15), false, warnings),
    );
    proof {
        acc = acc + spec_dec(rows@, flags16, 15).warnings;
        assert(warnings@ =~= base + acc);
    }
    proof {
        assert(acc =~= spec_string_warnings(rows@, flags16));
        assert(warnings@ =~= old(warnings)@ + spec_string_warnings(rows@, flags16));
    }
    DecodedStrings {
        manufacturer,
        product,
        serial_number,
        volume_label,
        scsi_vendor,
        scsi_product,
        scsi_version,
        redirect_url,
        redirect_name,
        uf2_model,
        uf2_board_id,
    }
}

// Finishes a parse whose rows cannot hold every announced string: plain
// fields only, one closing warning, no strings at all.
#[verifier::rlimit(100)]
#[verifier::spinoff_prover]
fn finish_short(
    flags: u32,
    flags16: u16,
    rows: &[u16],
    vendor_id: Option<u16>,
    product_id: Option<u16>,
    bcd_device: Option<u16>,
    language_id: Option<u16>,
    attr_power: Option<u16>,
    need: usize,
    mut warnings: Vec<Warning>,
) -> (r: OtpParseResult)
    requires
        rows@.len() >= 16,
        flags16 == spec_low16(flags),
        need as int == 16 + spec_expected_span(rows@, flags16),
        rows@.len() < need,
        vendor_id == spec_u16_value(rows@, flags16, 0),
        product_id == spec_u16_value(rows@, flags16, 1),
        bcd_device == spec_u16_value(rows@, flags16, 2),
        language_id == spec_u16_value(rows@, flags16, 3),
        attr_power == spec_u16_value(rows@, flags16, 7),
        warnings@ == spec_prelude_warnings(flags, rows@),
    ensures
        Some(r@) == spec_parse(flags, rows@),
{
    warnings.push(Warning::RowsTooShortForStrings { have: rows.len(), need });
    let wl = WhiteLabelStruct::from_parts(
        vendor_id,
        product_id,
        bcd_device,
        language_id,
        attr_power,
        None,
        None,
        None,
        None,
        None,
        None,
        None,
        None,
        None,
        None,
        None,
        clone_warnings(&warnings),
    );
    proof {
        let p = spec_parse(flags, rows@)->0;
        assert(warnings@ =~= p.warnings);
        assert(wl@ =~= p.record);
    }
    OtpParseResult { white_label: wl, warnings }
}

// The data-row span all eleven decoded strings would occupy again.
#[verifier::rlimit(100)]
#[verifier::spinoff_prover]
fn sum_actual(ds: &DecodedStrings, rows: Ghost<Seq<u16>>, flags16: u16) -> (n: usize)
    requires
        opt_str_view(ds.manufacturer) == spec_dec(rows@, flags16, 4).value,
        opt_str_view(ds.product) == spec_dec(rows@, flags16, 5).value,
        opt_str_view(ds.serial_number) == spec_dec(rows@, flags16, 6).value,
        opt_str_view(ds.volume_label) == spec_dec(rows@, flags16, 8).value,
        opt_str_view(ds.scsi_vendor) == spec_dec(rows@, flags16, 9).value,
        opt_str_view(ds.scsi_product) == spec_dec(rows@, flags16, 10).value,
        opt_str_view(ds.scsi_version) == spec_dec(rows@, flags16, 11).value,
        opt_str_view(ds.redirect_url) == spec_dec(rows@, flags16, 12).value,
        opt_str_view(ds.redirect_name) == spec_dec(rows@, flags16, 13).value,
        opt_str_view(ds.uf2_model) == spec_dec(rows@, flags16, 14).value,
        opt_str_view(ds.uf2_board_id) == spec_dec(rows@, flags16, 15).value,
    ensures
        n as int == 16 + spec_actual_span(rows@, flags16),
{
    16 + actual_term(&ds.manufacturer) + actual_term(&ds.product) + actual_term(
        &ds.serial_number,
    ) + actual_term(&ds.volume_label) + actual_term(&ds.scsi_vendor) + actual_term(
        &ds.scsi_product,
    ) + actual_term(&ds.scsi_version) + actual_term(&ds.redirect_url) + actual_term(
        &ds.redirect_name,
    ) + actual_term(&ds.uf2_model) + actual_term(&ds.uf2_board_id)
}

// Finishes a parse on the full path: every decoded string is kept, and a
// shortfall against the decoded strings' own span is one more warning.
#[verifier::rlimit(100)]
#[verifier::spinoff_prover]
fn finish_full(
    flags: u32,
    flags16: u16,
    rows: &[u16],
    vendor_id: Option<u16>,
    product_id: Option<u16>,
    bcd_device: Option<u16>,
    language_id: Option<u16>,
    attr_power: Option<u16>,
    ds: DecodedStrings,
    mut warnings: Vec<Warning>,
) -> (r: OtpParseResult)
    requires
        rows@.len() >= 16,
        flags16 == spec_low16(flags),
        rows@.len() >= 16 + spec_expected_span(rows@, flags16),
        vendor_id == spec_u16_value(rows@, flags16, 0),
        product_id == spec_u16_value(rows@, flags16, 1),
        bcd_device == spec_u16_value(rows@, flags16, 2),
        language_id == spec_u16_value(rows@, flags16, 3),
        attr_power == spec_u16_value(rows@, flags16, 7),
        opt_str_view(ds.manufacturer) == spec_dec(rows@, flags16, 4).value,
        opt_str_view(ds.product) == spec_dec(rows@, flags16, 5).value,
        opt_str_view(ds.serial_number) == spec_dec(rows@, flags16, 6).value,
        opt_str_view(ds.volume_label) == spec_dec(rows@, flags16, 8).value,
        opt_str_view(ds.scsi_vendor) == spec_dec(rows@, flags16, 9).value,
        opt_str_view(ds.scsi_product) == spec_dec(rows@, flags16, 10).value,
        opt_str_view(ds.scsi_version) == spec_dec(rows@, flags16, 11).value,
        opt_str_view(ds.redirect_url) == spec_dec(rows@, flags16, 12).value,
        opt_str_view(ds.redirect_name) == spec_dec(rows@, flags16, 13).value,
        opt_str_view(ds.uf2_model) == spec_dec(rows@, flags16, 14).value,
        opt_str_view(ds.uf2_board_id) == spec_dec(rows@, flags16, 15).value,
        warnings@ == spec_prelude_warnings(flags, rows@) + spec_string_warnings(rows@, flags16),
    ensures
        Some(r@) == spec_parse(flags, rows@),
{
    let expected2 = sum_actual(&ds, Ghost(rows@), flags16);
    if rows.len() < expected2 {
        warnings.push(Warning::RowCountMismatch { have: rows.len(), expected: expected2 });
    }
    let wl = WhiteLabelStruct::from_parts(
        vendor_id,
        product_id,
        bcd_device,
        language_id,
        attr_power,
        ds.manufacturer,
        ds.product,
        ds.serial_number,
        ds.volume_label,
        ds.scsi_vendor,
        ds.scsi_product,
        ds.scsi_version,
        ds.redirect_url,
        ds.redirect_name,
        ds.uf2_model,
        ds.uf2_board_id,
        clone_warnings(&warnings),
    );
    proof {
        let p = spec_parse(flags, rows@)->0;
        assert(warnings@ =~= p.warnings);
        assert(wl@ =~= p.record);
    }
    OtpParseResult { white_label: wl, warnings }
}

impl WhiteLabelStruct {
    /// Recovers a record from the presence bitmap and the rows starting at
    /// the record's first header row.  Fails only when fewer than the 16
    /// header rows were supplied.  When the rows cannot hold every string
    /// the presence bits announce, one warning is raised and no strings are
    /// extracted at all; every other oddity is a warning and decoding goes
    /// on.  A decoded string's encoding is derived from its text, so
    /// re-encoding a foreign image whose UTF-16-flagged payload holds pure
    /// ASCII yields the tighter ASCII packing, not the stored rows.
    #[verifier::rlimit(100)]
    pub fn parse_otp(usb_boot_flags: u32, rows: &[u16]) -> (r: Result<OtpParseResult, Error>)
        ensures
            (rows@.len() < 16) <==> (r is Err),
            r matches Err(e) ==> e == Error::TooFewRows(16),
            r matches Ok(p) ==> Some(p@) == spec_parse(usb_boot_flags, rows@),
    {
        if rows.len() < 16 {
            return Err(Error::TooFewRows(16));
        }
        let ghost rv = rows@;
        let mut warnings: Vec<Warning> = Vec::new();
        if (usb_boot_flags / 0x400000) % 2 == 0 {
            warnings.push(Warning::AddrValidBitClear);
        }
        if (usb_boot_flags / 0x800000) % 2 == 1 {
            warnings.push(Warning::DpDmSwapSet);
        }
        if (usb_boot_flags / 0x10000) % 64 != 0 || usb_boot_flags / 0x1000000 != 0 {
            warnings.push(Warning::ReservedBitsSet);
        }
        proof {
            assert(warnings@ =~= spec_flag_warnings(usb_boot_flags));
        }
        let flags16 = (usb_boot_flags % 0x10000) as u16;
        let vendor_id = extract_u16_field(rows, flags16, &Field::descriptor(0), &mut warnings);
        let product_id = extract_u16_field(rows, flags16, &Field::descriptor(1), &mut warnings);
        let bcd_device = extract_u16_field(rows, flags16, &Field::descriptor(2), &mut warnings);
        let language_id = extract_u16_field(rows, flags16, &Field::descriptor(3), &mut warnings);
        let attr_power = extract_u16_field(rows, flags16, &Field::descriptor(7), &mut warnings);
        proof {
            assert(warnings@ =~= spec_prelude_warnings(usb_boot_flags, rv));
        }
        let need = 16 + span_term(rows, flags16, 4) + span_term(rows, flags16, 5) + span_term(
            rows,
            flags16,
            6,
        ) + span_term(rows, flags16, 8) + span_term(rows, flags16, 9) + span_term(rows, flags16, 10)
            + span_term(rows, flags16, 11) + span_term(rows, flags16, 12) + span_term(
            rows,
            flags16,
            13,
        ) + span_term(rows, flags16, 14) + span_term(rows, flags16, 15);
        if rows.len() < need {
            return Ok(
                finish_short(
                    usb_boot_flags,
                    flags16,
                    rows,
                    vendor_id,
                    product_id,
                    bcd_device,
                    language_id,
                    attr_power,
                    need,
                    warnings,
                ),
            );
        }
        let ds = decode_all_strings(rows, flags16, &mut warnings);
        Ok(
            finish_full(
                usb_boot_flags,
                flags16,
                rows,
                vendor_id,
                product_id,
                bcd_device,
                language_id,
                attr_power,
                ds,
                warnings,
            ),
        )
    }
}

} // verus!

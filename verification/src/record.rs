//! The white-label record: one optional value per field, the presence
//! bitmap, and the layout of the full row image.
//!
//! The row image is the fixed 16-row header followed by the data rows of
//! every present string, in field-index order.  Each string's descriptor
//! word in the header carries the row offset its data was laid out at.

use vstd::prelude::*;
use vstd::utf8::is_ascii_chars;

use crate::fields::{
    field_max_len, field_utf16_allowed, is_str_index, is_u16_index, spec_attr_power_issue,
    spec_bcd_issue, spec_string_issue, Field,
};
use crate::strdef::{str_char_count, str_row_count, str_rows, str_wf, strdef_word, OtpString};
use crate::{Error, Warning};

verus! {

/// The mathematical model of a record: the sixteen optional field values
/// and the accumulated warnings.
#[verifier::ext_equal]
pub struct RecordView {
    pub vendor_id: Option<u16>,
    pub product_id: Option<u16>,
    pub bcd_device: Option<u16>,
    pub language_id: Option<u16>,
    pub attr_power: Option<u16>,
    pub manufacturer: Option<Seq<char>>,
    pub product: Option<Seq<char>>,
    pub serial_number: Option<Seq<char>>,
    pub volume_label: Option<Seq<char>>,
    pub scsi_vendor: Option<Seq<char>>,
    pub scsi_product: Option<Seq<char>>,
    pub scsi_version: Option<Seq<char>>,
    pub redirect_url: Option<Seq<char>>,
    pub redirect_name: Option<Seq<char>>,
    pub uf2_model: Option<Seq<char>>,
    pub uf2_board_id: Option<Seq<char>>,
    pub warnings: Seq<Warning>,
}

/// The plain 16-bit field at a header index.
pub open spec fn u16_field(r: RecordView, i: int) -> Option<u16> {
    if i == 0 {
        r.vendor_id
    } else if i == 1 {
        r.product_id
    } else if i == 2 {
        r.bcd_device
    } else if i == 3 {
        r.language_id
    } else {
        r.attr_power
    }
}

/// The string field at a header index.
pub open spec fn str_field(r: RecordView, i: int) -> Option<Seq<char>> {
    if i == 4 {
        r.manufacturer
    } else if i == 5 {
        r.product
    } else if i == 6 {
        r.serial_number
    } else if i == 8 {
        r.volume_label
    } else if i == 9 {
        r.scsi_vendor
    } else if i == 10 {
        r.scsi_product
    } else if i == 11 {
        r.scsi_version
    } else if i == 12 {
        r.redirect_url
    } else if i == 13 {
        r.redirect_name
    } else if i == 14 {
        r.uf2_model
    } else {
        r.uf2_board_id
    }
}

/// Whether the field at a header index carries a value.
pub open spec fn field_present(r: RecordView, i: int) -> bool {
    if is_u16_index(i) {
        u16_field(r, i) is Some
    } else {
        str_field(r, i) is Some
    }
}

/// The view of an optional string field.
pub open spec fn opt_str_view(o: Option<OtpString>) -> Option<Seq<char>> {
    match o {
        Some(s) => Some(s@),
        None => None,
    }
}

/// The validation issue of the field at a header index, if any.
pub open spec fn spec_field_issue(r: RecordView, i: int) -> Option<Warning> {
    if is_u16_index(i) {
        if i == 7 {
            match r.attr_power {
                Some(v) => spec_attr_power_issue(v),
                None => None,
            }
        } else if i == 2 {
            match r.bcd_device {
                Some(v) => spec_bcd_issue(v),
                None => None,
            }
        } else {
            None
        }
    } else {
        match str_field(r, i) {
            Some(s) => spec_string_issue(s, i),
            None => None,
        }
    }
}

/// The validation issues of the fields below index `i`, in index order.
pub open spec fn spec_validation_upto(r: RecordView, i: int) -> Seq<Warning>
    decreases i,
{
    if i <= 0 {
        Seq::empty()
    } else {
        spec_validation_upto(r, i - 1) + match spec_field_issue(r, i - 1) {
            Some(w) => seq![w],
            None => Seq::empty(),
        }
    }
}

/// The validation issues of the whole record, in field-index order.
pub open spec fn spec_validation(r: RecordView) -> Seq<Warning> {
    spec_validation_upto(r, 16)
}

/// The data rows a string field contributes to the image.
pub open spec fn str_rows_opt(r: RecordView, i: int) -> Seq<u16> {
    match str_field(r, i) {
        Some(s) => str_rows(s),
        None => Seq::empty(),
    }
}

/// The number of data rows a string field contributes to the image.
pub open spec fn present_rows(r: RecordView, i: int) -> int {
    str_rows_opt(r, i).len() as int
}

/// The number of payload rows contributed by string fields below index `i`.
pub open spec fn payload_len_upto(r: RecordView, i: int) -> int {
    (if i > 4 {
        present_rows(r, 4)
    } else {
        0int
    }) + (if i > 5 {
        present_rows(r, 5)
    } else {
        0int
    }) + (if i > 6 {
        present_rows(r, 6)
    } else {
        0int
    }) + (if i > 8 {
        present_rows(r, 8)
    } else {
        0int
    }) + (if i > 9 {
        present_rows(r, 9)
    } else {
        0int
    }) + (if i > 10 {
        present_rows(r, 10)
    } else {
        0int
    }) + (if i > 11 {
        present_rows(r, 11)
    } else {
        0int
    }) + (if i > 12 {
        present_rows(r, 12)
    } else {
        0int
    }) + (if i > 13 {
        present_rows(r, 13)
    } else {
        0int
    }) + (if i > 14 {
        present_rows(r, 14)
    } else {
        0int
    }) + (if i > 15 {
        present_rows(r, 15)
    } else {
        0int
    })
}

/// The row offset a present string at index `i` is laid out at.
pub open spec fn str_offset(r: RecordView, i: int) -> int {
    16 + payload_len_upto(r, i)
}

/// The header row at index `i`: the field value (or zero) for a plain
/// field, the descriptor word (or zero) for a string field.
pub open spec fn header_row(r: RecordView, i: int) -> u16 {
    if is_u16_index(i) {
        match u16_field(r, i) {
            Some(v) => v,
            None => 0u16,
        }
    } else {
        match str_field(r, i) {
            Some(s) => strdef_word(s, str_offset(r, i)),
            None => 0u16,
        }
    }
}

/// The payload rows contributed by string fields below index `i`, in
/// field-index order.
pub open spec fn payload_upto(r: RecordView, i: int) -> Seq<u16> {
    (if i > 4 {
        str_rows_opt(r, 4)
    } else {
        Seq::empty()
    }) + (if i > 5 {
        str_rows_opt(r, 5)
    } else {
        Seq::empty()
    }) + (if i > 6 {
        str_rows_opt(r, 6)
    } else {
        Seq::empty()
    }) + (if i > 8 {
        str_rows_opt(r, 8)
    } else {
        Seq::empty()
    }) + (if i > 9 {
        str_rows_opt(r, 9)
    } else {
        Seq::empty()
    }) + (if i > 10 {
        str_rows_opt(r, 10)
    } else {
        Seq::empty()
    }) + (if i > 11 {
        str_rows_opt(r, 11)
    } else {
        Seq::empty()
    }) + (if i > 12 {
        str_rows_opt(r, 12)
    } else {
        Seq::empty()
    }) + (if i > 13 {
        str_rows_opt(r, 13)
    } else {
        Seq::empty()
    }) + (if i > 14 {
        str_rows_opt(r, 14)
    } else {
        Seq::empty()
    }) + (if i > 15 {
        str_rows_opt(r, 15)
    } else {
        Seq::empty()
    })
}

/// The concatenated string payload of the image, in field-index order.
pub open spec fn record_payload(r: RecordView) -> Seq<u16> {
    payload_upto(r, 16)
}

/// One step of the layout bookkeeping: passing index `i` extends the
/// partial payload by exactly that field's data rows, and a present
/// string's span never runs past the full payload.
pub proof fn lemma_payload_step(r: RecordView, i: int)
    requires
        0 <= i < 16,
    ensures
        payload_len_upto(r, i + 1) == payload_len_upto(r, i) + (if is_str_index(i) {
            present_rows(r, i)
        } else {
            0int
        }),
        payload_upto(r, i + 1) == payload_upto(r, i) + (if is_str_index(i) {
            str_rows_opt(r, i)
        } else {
            Seq::<u16>::empty()
        }),
        payload_len_upto(r, i) == payload_upto(r, i).len(),
        payload_len_upto(r, i) + (if is_str_index(i) {
            present_rows(r, i)
        } else {
            0int
        }) <= payload_len_upto(r, 16),
{
    assert(payload_upto(r, i + 1) =~= payload_upto(r, i) + (if is_str_index(i) {
        str_rows_opt(r, i)
    } else {
        Seq::<u16>::empty()
    }));
}

/// The full row image: 16 header rows, then the string payload.
pub open spec fn record_rows(r: RecordView) -> Seq<u16> {
    Seq::new(16, |i: int| header_row(r, i)) + record_payload(r)
}

/// The total number of rows of the image.
pub open spec fn total_rows(r: RecordView) -> int {
    16 + payload_len_upto(r, 16)
}

/// The presence bitmap: bit `i` set exactly when field `i` carries a value,
/// plus the address-valid bit (bit 22).
pub open spec fn record_flags(r: RecordView) -> u32 {
    ((if field_present(r, 0) {
        0x1int
    } else {
        0int
    }) + (if field_present(r, 1) {
        0x2int
    } else {
        0int
    }) + (if field_present(r, 2) {
        0x4int
    } else {
        0int
    }) + (if field_present(r, 3) {
        0x8int
    } else {
        0int
    }) + (if field_present(r, 4) {
        0x10int
    } else {
        0int
    }) + (if field_present(r, 5) {
        0x20int
    } else {
        0int
    }) + (if field_present(r, 6) {
        0x40int
    } else {
        0int
    }) + (if field_present(r, 7) {
        0x80int
    } else {
        0int
    }) + (if field_present(r, 8) {
        0x100int
    } else {
        0int
    }) + (if field_present(r, 9) {
        0x200int
    } else {
        0int
    }) + (if field_present(r, 10) {
        0x400int
    } else {
        0int
    }) + (if field_present(r, 11) {
        0x800int
    } else {
        0int
    }) + (if field_present(r, 12) {
        0x1000int
    } else {
        0int
    }) + (if field_present(r, 13) {
        0x2000int
    } else {
        0int
    }) + (if field_present(r, 14) {
        0x4000int
    } else {
        0int
    }) + (if field_present(r, 15) {
        0x8000int
    } else {
        0int
    }) + 0x400000int) as u32
}

/// Every present string fits the format and its field: at most 127 stored
/// characters, within the field's declared maximum, and ASCII where the
/// field demands it.
pub open spec fn record_strings_ok(r: RecordView) -> bool {
    forall|i: int|
        is_str_index(i) && #[trigger] str_field(r, i) is Some ==> {
            &&& str_wf(str_field(r, i)->0)
            &&& str_char_count(str_field(r, i)->0) <= field_max_len(i)
            &&& (!field_utf16_allowed(i) ==> is_ascii_chars(str_field(r, i)->0))
        }
}

/// The white-label record.  Field setters re-validate the whole record, so
/// its warning list always describes its current values.
#[derive(Debug)]
pub struct WhiteLabelStruct {
    vendor_id: Option<u16>,
    product_id: Option<u16>,
    bcd_device: Option<u16>,
    language_id: Option<u16>,
    attr_power: Option<u16>,
    manufacturer: Option<OtpString>,
    product: Option<OtpString>,
    serial_number: Option<OtpString>,
    volume_label: Option<OtpString>,
    scsi_vendor: Option<OtpString>,
    scsi_product: Option<OtpString>,
    scsi_version: Option<OtpString>,
    redirect_url: Option<OtpString>,
    redirect_name: Option<OtpString>,
    uf2_model: Option<OtpString>,
    uf2_board_id: Option<OtpString>,
    warnings: Vec<Warning>,
}

impl View for WhiteLabelStruct {
    type V = RecordView;

    closed spec fn view(&self) -> RecordView {
        RecordView {
            vendor_id: self.vendor_id,
            product_id: self.product_id,
            bcd_device: self.bcd_device,
            language_id: self.language_id,
            attr_power: self.attr_power,
            manufacturer: opt_str_view(self.manufacturer),
            product: opt_str_view(self.product),
            serial_number: opt_str_view(self.serial_number),
            volume_label: opt_str_view(self.volume_label),
            scsi_vendor: opt_str_view(self.scsi_vendor),
            scsi_product: opt_str_view(self.scsi_product),
            scsi_version: opt_str_view(self.scsi_version),
            redirect_url: opt_str_view(self.redirect_url),
            redirect_name: opt_str_view(self.redirect_name),
            uf2_model: opt_str_view(self.uf2_model),
            uf2_board_id: opt_str_view(self.uf2_board_id),
            warnings: self.warnings@,
        }
    }
}

/// Copies a warning list.
pub(crate) fn clone_warnings(v: &Vec<Warning>) -> (r: Vec<Warning>)
    ensures
        r@ == v@,
{
    let mut r: Vec<Warning> = Vec::new();
    let mut i: usize = 0;
    while i < v.len()
        invariant
            i <= v@.len(),
            r@ =~= v@.take(i as int),
        decreases v@.len() - i,
    {
        r.push(v[i]);
        proof {
            assert(r@ =~= v@.take(i as int + 1));
        }
        i += 1;
    }
    proof {
        assert(v@.take(v@.len() as int) =~= v@);
    }
    r
}

/// Copies an optional string field.
fn clone_opt_string(o: &Option<OtpString>) -> (r: Option<OtpString>)
    ensures
        opt_str_view(r) == opt_str_view(*o),
{
    match o {
        Some(s) => Some(s.clone()),
        None => None,
    }
}

/// Compares two optional string fields by their text.
fn opt_string_eq(a: &Option<OtpString>, b: &Option<OtpString>) -> (r: bool)
    ensures
        r == (opt_str_view(*a) == opt_str_view(*b)),
{
    match (a, b) {
        (Some(x), Some(y)) => x.eq(y),
        (None, None) => true,
        _ => false,
    }
}

/// Compares two optional 16-bit fields.
fn opt_u16_eq(a: &Option<u16>, b: &Option<u16>) -> (r: bool)
    ensures
        r == (*a == *b),
{
    match (a, b) {
        (Some(x), Some(y)) => *x == *y,
        (None, None) => true,
        _ => false,
    }
}

/// Compares two warning lists.
fn warnings_eq(a: &Vec<Warning>, b: &Vec<Warning>) -> (r: bool)
    ensures
        r == (a@ == b@),
{
    if a.len() != b.len() {
        return false;
    }
    let mut i: usize = 0;
    while i < a.len()
        invariant
            a@.len() == b@.len(),
            i <= a@.len(),
            forall|j: int| 0 <= j < i ==> a@[j] == b@[j],
        decreases a@.len() - i,
    {
        if a[i] != b[i] {
            return false;
        }
        i += 1;
    }
    proof {
        assert(a@ =~= b@);
    }
    true
}

impl Clone for WhiteLabelStruct {
    fn clone(&self) -> (r: Self)
        ensures
            r@ == self@,
    {
        WhiteLabelStruct {
            vendor_id: self.vendor_id,
            product_id: self.product_id,
            bcd_device: self.bcd_device,
            language_id: self.language_id,
            attr_power: self.attr_power,
            manufacturer: clone_opt_string(&self.manufacturer),
            product: clone_opt_string(&self.product),
            serial_number: clone_opt_string(&self.serial_number),
            volume_label: clone_opt_string(&self.volume_label),
            scsi_vendor: clone_opt_string(&self.scsi_vendor),
            scsi_product: clone_opt_string(&self.scsi_product),
            scsi_version: clone_opt_string(&self.scsi_version),
            redirect_url: clone_opt_string(&self.redirect_url),
            redirect_name: clone_opt_string(&self.redirect_name),
            uf2_model: clone_opt_string(&self.uf2_model),
            uf2_board_id: clone_opt_string(&self.uf2_board_id),
            warnings: clone_warnings(&self.warnings),
        }
    }
}

impl Default for WhiteLabelStruct {
    /// An empty record: no field set, no warnings.
    fn default() -> (r: Self)
        ensures
            r@ == empty_record(),
    {
        WhiteLabelStruct {
            vendor_id: None,
            product_id: None,
            bcd_device: None,
            language_id: None,
            attr_power: None,
            manufacturer: None,
            product: None,
            serial_number: None,
            volume_label: None,
            scsi_vendor: None,
            scsi_product: None,
            scsi_version: None,
            redirect_url: None,
            redirect_name: None,
            uf2_model: None,
            uf2_board_id: None,
            warnings: Vec::new(),
        }
    }
}

/// The model of an empty record.
pub open spec fn empty_record() -> RecordView {
    RecordView {
        vendor_id: None,
        product_id: None,
        bcd_device: None,
        language_id: None,
        attr_power: None,
        manufacturer: None,
        product: None,
        serial_number: None,
        volume_label: None,
        scsi_vendor: None,
        scsi_product: None,
        scsi_version: None,
        redirect_url: None,
        redirect_name: None,
        uf2_model: None,
        uf2_board_id: None,
        warnings: Seq::empty(),
    }
}

impl PartialEq for WhiteLabelStruct {
    fn eq(&self, other: &Self) -> (r: bool) {
        let r = opt_u16_eq(&self.vendor_id, &other.vendor_id)
            && opt_u16_eq(&self.product_id, &other.product_id)
            && opt_u16_eq(&self.bcd_device, &other.bcd_device)
            && opt_u16_eq(&self.language_id, &other.language_id)
            && opt_u16_eq(&self.attr_power, &other.attr_power)
            && opt_string_eq(&self.manufacturer, &other.manufacturer)
            && opt_string_eq(&self.product, &other.product)
            && opt_string_eq(&self.serial_number, &other.serial_number)
            && opt_string_eq(&self.volume_label, &other.volume_label)
            && opt_string_eq(&self.scsi_vendor, &other.scsi_vendor)
            && opt_string_eq(&self.scsi_product, &other.scsi_product)
            && opt_string_eq(&self.scsi_version, &other.scsi_version)
            && opt_string_eq(&self.redirect_url, &other.redirect_url)
            && opt_string_eq(&self.redirect_name, &other.redirect_name)
            && opt_string_eq(&self.uf2_model, &other.uf2_model)
            && opt_string_eq(&self.uf2_board_id, &other.uf2_board_id)
            && warnings_eq(&self.warnings, &other.warnings);
        proof {
            if r {
                assert(self@ =~= other@);
            }
        }
        r
    }
}

impl vstd::std_specs::cmp::PartialEqSpecImpl for WhiteLabelStruct {
    open spec fn obeys_eq_spec() -> bool {
        true
    }

    open spec fn eq_spec(&self, other: &Self) -> bool {
        self@ == other@
    }
}

impl WhiteLabelStruct {
    // Assembles a record from decoded parts.
    #[verifier::rlimit(100)]
    pub(crate) fn from_parts(
        vendor_id: Option<u16>,
        product_id: Option<u16>,
        bcd_device: Option<u16>,
        language_id: Option<u16>,
        attr_power: Option<u16>,
        manufacturer: Option<OtpString>,
        product: Option<OtpString>,
        serial_number: Option<OtpString>,
        volume_label: Option<OtpString>,
        scsi_vendor: Option<OtpString>,
        scsi_product: Option<OtpString>,
        scsi_version: Option<OtpString>,
        redirect_url: Option<OtpString>,
        redirect_name: Option<OtpString>,
        uf2_model: Option<OtpString>,
        uf2_board_id: Option<OtpString>,
        warnings: Vec<Warning>,
    ) -> (r: WhiteLabelStruct)
        ensures
            r@ == (RecordView {
                vendor_id,
                product_id,
                bcd_device,
                language_id,
                attr_power,
                manufacturer: opt_str_view(manufacturer),
                product: opt_str_view(product),
                serial_number: opt_str_view(serial_number),
                volume_label: opt_str_view(volume_label),
                scsi_vendor: opt_str_view(scsi_vendor),
                scsi_product: opt_str_view(scsi_product),
                scsi_version: opt_str_view(scsi_version),
                redirect_url: opt_str_view(redirect_url),
                redirect_name: opt_str_view(redirect_name),
                uf2_model: opt_str_view(uf2_model),
                uf2_board_id: opt_str_view(uf2_board_id),
                warnings: warnings@,
            }),
    {
        WhiteLabelStruct {
            vendor_id,
            product_id,
            bcd_device,
            language_id,
            attr_power,
            manufacturer,
            product,
            serial_number,
            volume_label,
            scsi_vendor,
            scsi_product,
            scsi_version,
            redirect_url,
            redirect_name,
            uf2_model,
            uf2_board_id,
            warnings,
        }
    }

    /// True when the record carries no warnings.
    pub fn is_clean(&self) -> (r: bool)
        ensures
            r == (self@.warnings.len() == 0),
    {
        self.warnings.len() == 0
    }

    /// The warnings gathered while validating or decoding the record.
    pub fn warnings(&self) -> (r: &Vec<Warning>)
        ensures
            r@ == self@.warnings,
    {
        &self.warnings
    }

    /// The string field at a header index.
    pub(crate) fn str_field_ref(&self, i: usize) -> (r: &Option<OtpString>)
        requires
            is_str_index(i as int),
        ensures
            opt_str_view(*r) == str_field(self@, i as int),
    {
        if i == 4 {
            &self.manufacturer
        } else if i == 5 {
            &self.product
        } else if i == 6 {
            &self.serial_number
        } else if i == 8 {
            &self.volume_label
        } else if i == 9 {
            &self.scsi_vendor
        } else if i == 10 {
            &self.scsi_product
        } else if i == 11 {
            &self.scsi_version
        } else if i == 12 {
            &self.redirect_url
        } else if i == 13 {
            &self.redirect_name
        } else if i == 14 {
            &self.uf2_model
        } else {
            &self.uf2_board_id
        }
    }

    // Recomputes the warning list from the current field values.
    pub(crate) fn validate_fields(&mut self)
        ensures
            final(self)@ == (RecordView { warnings: spec_validation(old(self)@), ..old(self)@ }),
    {
        let mut ws: Vec<Warning> = Vec::new();
        let mut i: usize = 0;
        while i < 16
            invariant
                *self == *old(self),
                i <= 16,
                ws@ =~= spec_validation_upto(self@, i as int),
            decreases 16 - i,
        {
            let f = Field::descriptor(i);
            match f.validate(self) {
                Ok(()) => {},
                Err(w) => { ws.push(w) },
            }
            proof {
                assert(ws@ =~= spec_validation_upto(self@, i as int + 1));
            }
            i += 1;
        }
        self.warnings = ws;
        proof {
            assert(final(self)@ =~= (RecordView {
                warnings: spec_validation(old(self)@),
                ..old(self)@
            }));
        }
    }

    // Re-validates after a field mutation.
    fn update_warnings(&mut self)
        ensures
            final(self)@ == (RecordView { warnings: spec_validation(old(self)@), ..old(self)@ }),
    {
        self.validate_fields();
    }

    /// Sets the USB vendor ID.
    pub fn set_vid(&mut self, vid: u16)
        ensures
            ({
                let updated = RecordView { vendor_id: Some(vid), ..old(self)@ };
                final(self)@ == (RecordView { warnings: spec_validation(updated), ..updated })
            }),
    {
        self.vendor_id = Some(vid);
        self.update_warnings();
    }

    /// Sets the USB product ID.
    pub fn set_pid(&mut self, pid: u16)
        ensures
            ({
                let updated = RecordView { product_id: Some(pid), ..old(self)@ };
                final(self)@ == (RecordView { warnings: spec_validation(updated), ..updated })
            }),
    {
        self.product_id = Some(pid);
        self.update_warnings();
    }

    /// Sets the USB device revision, packed BCD (0x0200 for revision 2.00).
    pub fn set_bcd_device(&mut self, bcd: u16)
        ensures
            ({
                let updated = RecordView { bcd_device: Some(bcd), ..old(self)@ };
                final(self)@ == (RecordView { warnings: spec_validation(updated), ..updated })
            }),
    {
        self.bcd_device = Some(bcd);
        self.update_warnings();
    }

    /// Sets the USB language ID.
    pub fn set_language_id(&mut self, lang_id: u16)
        ensures
            ({
                let updated = RecordView { language_id: Some(lang_id), ..old(self)@ };
                final(self)@ == (RecordView { warnings: spec_validation(updated), ..updated })
            }),
    {
        self.language_id = Some(lang_id);
        self.update_warnings();
    }

    /// Sets the USB attributes byte and power draw (in 2 mA units).
    pub fn set_attr_power(&mut self, attr: u8, power: u8)
        ensures
            ({
                let updated = RecordView {
                    attr_power: Some((attr as u16 + 256 * (power as u16)) as u16),
                    ..old(self)@
                };
                final(self)@ == (RecordView { warnings: spec_validation(updated), ..updated })
            }),
    {
        self.attr_power = Some(attr as u16 + 256 * (power as u16));
        self.update_warnings();
    }

    /// The record with the string field at index `i` replaced.
    pub open spec fn spec_set_str(r: RecordView, i: int, v: Option<Seq<char>>) -> RecordView {
        if i == 4 {
            RecordView { manufacturer: v, ..r }
        } else if i == 5 {
            RecordView { product: v, ..r }
        } else if i == 6 {
            RecordView { serial_number: v, ..r }
        } else if i == 8 {
            RecordView { volume_label: v, ..r }
        } else if i == 9 {
            RecordView { scsi_vendor: v, ..r }
        } else if i == 10 {
            RecordView { scsi_product: v, ..r }
        } else if i == 11 {
            RecordView { scsi_version: v, ..r }
        } else if i == 12 {
            RecordView { redirect_url: v, ..r }
        } else if i == 13 {
            RecordView { redirect_name: v, ..r }
        } else if i == 14 {
            RecordView { uf2_model: v, ..r }
        } else {
            RecordView { uf2_board_id: v, ..r }
        }
    }

    // Stores a string field without re-validating (the caller does).
    pub(crate) fn put_str_field(&mut self, i: usize, v: Option<OtpString>)
        requires
            is_str_index(i as int),
        ensures
            final(self)@ == Self::spec_set_str(old(self)@, i as int, opt_str_view(v)),
    {
        if i == 4 {
            self.manufacturer = v;
        } else if i == 5 {
            self.product = v;
        } else if i == 6 {
            self.serial_number = v;
        } else if i == 8 {
            self.volume_label = v;
        } else if i == 9 {
            self.scsi_vendor = v;
        } else if i == 10 {
            self.scsi_product = v;
        } else if i == 11 {
            self.scsi_version = v;
        } else if i == 12 {
            self.redirect_url = v;
        } else if i == 13 {
            self.redirect_name = v;
        } else if i == 14 {
            self.uf2_model = v;
        } else {
            self.uf2_board_id = v;
        }
        proof {
            assert(final(self)@ =~= Self::spec_set_str(old(self)@, i as int, opt_str_view(v)));
        }
    }

    // Sets a string field from text, rejecting text the format cannot hold.
    fn set_str_field(&mut self, i: usize, value: &str) -> (r: Result<(), Error>)
        requires
            is_str_index(i as int),
        ensures
            match r {
                Ok(()) => str_wf(value@) && ({
                    let updated = Self::spec_set_str(old(self)@, i as int, Some(value@));
                    final(self)@ == (RecordView { warnings: spec_validation(updated), ..updated })
                }),
                Err(e) => {
                    &&& !str_wf(value@)
                    &&& e matches Error::StringTooLong(_)
                    &&& *final(self) == *old(self)
                },
            },
    {
        match OtpString::new(value.to_owned()) {
            Ok(s) => {
                self.put_str_field(i, Some(s));
                self.update_warnings();
                Ok(())
            },
            Err(e) => Err(e),
        }
    }

    /// Sets the USB manufacturer string.
    pub fn set_manufacturer(&mut self, value: &str) -> (r: Result<(), Error>)
        ensures
            match r {
                Ok(()) => str_wf(value@) && ({
                    let updated = RecordView { manufacturer: Some(value@), ..old(self)@ };
                    final(self)@ == (RecordView { warnings: spec_validation(updated), ..updated })
                }),
                Err(e) => {
                    &&& !str_wf(value@)
                    &&& e matches Error::StringTooLong(_)
                    &&& *final(self) == *old(self)
                },
            },
    {
        self.set_str_field(4, value)
    }

    /// Sets the USB product string.
    pub fn set_product(&mut self, value: &str) -> (r: Result<(), Error>)
        ensures
            match r {
                Ok(()) => str_wf(value@) && ({
                    let updated = RecordView { product: Some(value@), ..old(self)@ };
                    final(self)@ == (RecordView { warnings: spec_validation(updated), ..updated })
                }),
                Err(e) => {
                    &&& !str_wf(value@)
                    &&& e matches Error::StringTooLong(_)
                    &&& *final(self) == *old(self)
                },
            },
    {
        self.set_str_field(5, value)
    }

    /// Sets the USB serial number string.
    pub fn set_serial_number(&mut self, value: &str) -> (r: Result<(), Error>)
        ensures
            match r {
                Ok(()) => str_wf(value@) && ({
                    let updated = RecordView { serial_number: Some(value@), ..old(self)@ };
                    final(self)@ == (RecordView { warnings: spec_validation(updated), ..updated })
                }),
                Err(e) => {
                    &&& !str_wf(value@)
                    &&& e matches Error::StringTooLong(_)
                    &&& *final(self) == *old(self)
                },
            },
    {
        self.set_str_field(6, value)
    }

    /// Sets the mass-storage volume label string.
    pub fn set_volume_label(&mut self, value: &str) -> (r: Result<(), Error>)
        ensures
            match r {
                Ok(()) => str_wf(value@) && ({
                    let updated = RecordView { volume_label: Some(value@), ..old(self)@ };
                    final(self)@ == (RecordView { warnings: spec_validation(updated), ..updated })
                }),
                Err(e) => {
                    &&& !str_wf(value@)
                    &&& e matches Error::StringTooLong(_)
                    &&& *final(self) == *old(self)
                },
            },
    {
        self.set_str_field(8, value)
    }

    /// Sets the SCSI vendor string.
    pub fn set_scsi_vendor(&mut self, value: &str) -> (r: Result<(), Error>)
        ensures
            match r {
                Ok(()) => str_wf(value@) && ({
                    let updated = RecordView { scsi_vendor: Some(value@), ..old(self)@ };
                    final(self)@ == (RecordView { warnings: spec_validation(updated), ..updated })
                }),
                Err(e) => {
                    &&& !str_wf(value@)
                    &&& e matches Error::StringTooLong(_)
                    &&& *final(self) == *old(self)
                },
            },
    {
        self.set_str_field(9, value)
    }

    /// Sets the SCSI product string.
    pub fn set_scsi_product(&mut self, value: &str) -> (r: Result<(), Error>)
        ensures
            match r {
                Ok(()) => str_wf(value@) && ({
                    let updated = RecordView { scsi_product: Some(value@), ..old(self)@ };
                    final(self)@ == (RecordView { warnings: spec_validation(updated), ..updated })
                }),
                Err(e) => {
                    &&& !str_wf(value@)
                    &&& e matches Error::StringTooLong(_)
                    &&& *final(self) == *old(self)
                },
            },
    {
        self.set_str_field(10, value)
    }

    /// Sets the SCSI version string.
    pub fn set_scsi_version(&mut self, value: &str) -> (r: Result<(), Error>)
        ensures
            match r {
                Ok(()) => str_wf(value@) && ({
                    let updated = RecordView { scsi_version: Some(value@), ..old(self)@ };
                    final(self)@ == (RecordView { warnings: spec_validation(updated), ..updated })
                }),
                Err(e) => {
                    &&& !str_wf(value@)
                    &&& e matches Error::StringTooLong(_)
                    &&& *final(self) == *old(self)
                },
            },
    {
        self.set_str_field(11, value)
    }

    /// Sets the browser redirect URL string.
    pub fn set_redirect_url(&mut self, value: &str) -> (r: Result<(), Error>)
        ensures
            match r {
                Ok(()) => str_wf(value@) && ({
                    let updated = RecordView { redirect_url: Some(value@), ..old(self)@ };
                    final(self)@ == (RecordView { warnings: spec_validation(updated), ..updated })
                }),
                Err(e) => {
                    &&& !str_wf(value@)
                    &&& e matches Error::StringTooLong(_)
                    &&& *final(self) == *old(self)
                },
            },
    {
        self.set_str_field(12, value)
    }

    /// Sets the browser redirect name string.
    pub fn set_redirect_name(&mut self, value: &str) -> (r: Result<(), Error>)
        ensures
            match r {
                Ok(()) => str_wf(value@) && ({
                    let updated = RecordView { redirect_name: Some(value@), ..old(self)@ };
                    final(self)@ == (RecordView { warnings: spec_validation(updated), ..updated })
                }),
                Err(e) => {
                    &&& !str_wf(value@)
                    &&& e matches Error::StringTooLong(_)
                    &&& *final(self) == *old(self)
                },
            },
    {
        self.set_str_field(13, value)
    }

    /// Sets the UF2 model string.
    pub fn set_uf2_model(&mut self, value: &str) -> (r: Result<(), Error>)
        ensures
            match r {
                Ok(()) => str_wf(value@) && ({
                    let updated = RecordView { uf2_model: Some(value@), ..old(self)@ };
                    final(self)@ == (RecordView { warnings: spec_validation(updated), ..updated })
                }),
                Err(e) => {
                    &&& !str_wf(value@)
                    &&& e matches Error::StringTooLong(_)
                    &&& *final(self) == *old(self)
                },
            },
    {
        self.set_str_field(14, value)
    }

    /// Sets the UF2 board ID string.
    pub fn set_uf2_board_id(&mut self, value: &str) -> (r: Result<(), Error>)
        ensures
            match r {
                Ok(()) => str_wf(value@) && ({
                    let updated = RecordView { uf2_board_id: Some(value@), ..old(self)@ };
                    final(self)@ == (RecordView { warnings: spec_validation(updated), ..updated })
                }),
                Err(e) => {
                    &&& !str_wf(value@)
                    &&& e matches Error::StringTooLong(_)
                    &&& *final(self) == *old(self)
                },
            },
    {
        self.set_str_field(15, value)
    }

    /// The USB vendor ID, if set.
    pub fn vid(&self) -> (r: Option<u16>)
        ensures
            r == self@.vendor_id,
    {
        self.vendor_id
    }

    /// The USB product ID, if set.
    pub fn pid(&self) -> (r: Option<u16>)
        ensures
            r == self@.product_id,
    {
        self.product_id
    }

    /// The USB device revision, if set.
    pub fn bcd_device(&self) -> (r: Option<u16>)
        ensures
            r == self@.bcd_device,
    {
        self.bcd_device
    }

    /// The USB language ID, if set.
    pub fn language_id(&self) -> (r: Option<u16>)
        ensures
            r == self@.language_id,
    {
        self.language_id
    }

    /// The combined USB attributes and power value, if set.
    pub fn attr_power(&self) -> (r: Option<u16>)
        ensures
            r == self@.attr_power,
    {
        self.attr_power
    }

    /// The USB power draw in 2 mA units, if set.
    pub fn power(&self) -> (r: Option<u8>)
        ensures
            match self@.attr_power {
                Some(v) => r == Some((v as int / 256) as u8),
                None => r is None,
            },
    {
        match self.attr_power {
            Some(v) => Some((v / 256) as u8),
            None => None,
        }
    }

    /// The USB attributes byte, if set.
    pub fn attributes(&self) -> (r: Option<u8>)
        ensures
            match self@.attr_power {
                Some(v) => r == Some((v as int % 256) as u8),
                None => r is None,
            },
    {
        match self.attr_power {
            Some(v) => Some((v % 256) as u8),
            None => None,
        }
    }

    /// The USB manufacturer string, if set.
    pub fn manufacturer(&self) -> (r: Option<&String>)
        ensures
            match r {
                Some(s) => self@.manufacturer == Some(s@),
                None => self@.manufacturer is None,
            },
    {
        match &self.manufacturer {
            Some(s) => Some(s.string()),
            None => None,
        }
    }

    /// The USB product string, if set.
    pub fn product(&self) -> (r: Option<&String>)
        ensures
            match r {
                Some(s) => self@.product == Some(s@),
                None => self@.product is None,
            },
    {
        match &self.product {
            Some(s) => Some(s.string()),
            None => None,
        }
    }

    /// The USB serial number string, if set.
    pub fn serial_number(&self) -> (r: Option<&String>)
        ensures
            match r {
                Some(s) => self@.serial_number == Some(s@),
                None => self@.serial_number is None,
            },
    {
        match &self.serial_number {
            Some(s) => Some(s.string()),
            None => None,
        }
    }

    /// The mass-storage volume label string, if set.
    pub fn volume_label(&self) -> (r: Option<&String>)
        ensures
            match r {
                Some(s) => self@.volume_label == Some(s@),
                None => self@.volume_label is None,
            },
    {
        match &self.volume_label {
            Some(s) => Some(s.string()),
            None => None,
        }
    }

    /// The SCSI vendor string, if set.
    pub fn scsi_vendor(&self) -> (r: Option<&String>)
        ensures
            match r {
                Some(s) => self@.scsi_vendor == Some(s@),
                None => self@.scsi_vendor is None,
            },
    {
        match &self.scsi_vendor {
            Some(s) => Some(s.string()),
            None => None,
        }
    }

    /// The SCSI product string, if set.
    pub fn scsi_product(&self) -> (r: Option<&String>)
        ensures
            match r {
                Some(s) => self@.scsi_product == Some(s@),
                None => self@.scsi_product is None,
            },
    {
        match &self.scsi_product {
            Some(s) => Some(s.string()),
            None => None,
        }
    }

    /// The SCSI version string, if set.
    pub fn scsi_version(&self) -> (r: Option<&String>)
        ensures
            match r {
                Some(s) => self@.scsi_version == Some(s@),
                None => self@.scsi_version is None,
            },
    {
        match &self.scsi_version {
            Some(s) => Some(s.string()),
            None => None,
        }
    }

    /// The browser redirect URL string, if set.
    pub fn redirect_url(&self) -> (r: Option<&String>)
        ensures
            match r {
                Some(s) => self@.redirect_url == Some(s@),
                None => self@.redirect_url is None,
            },
    {
        match &self.redirect_url {
            Some(s) => Some(s.string()),
            None => None,
        }
    }

    /// The browser redirect name string, if set.
    pub fn redirect_name(&self) -> (r: Option<&String>)
        ensures
            match r {
                Some(s) => self@.redirect_name == Some(s@),
                None => self@.redirect_name is None,
            },
    {
        match &self.redirect_name {
            Some(s) => Some(s.string()),
            None => None,
        }
    }

    /// The UF2 model string, if set.
    pub fn uf2_model(&self) -> (r: Option<&String>)
        ensures
            match r {
                Some(s) => self@.uf2_model == Some(s@),
                None => self@.uf2_model is None,
            },
    {
        match &self.uf2_model {
            Some(s) => Some(s.string()),
            None => None,
        }
    }

    /// The UF2 board ID string, if set.
    pub fn uf2_board_id(&self) -> (r: Option<&String>)
        ensures
            match r {
                Some(s) => self@.uf2_board_id == Some(s@),
                None => self@.uf2_board_id is None,
            },
    {
        match &self.uf2_board_id {
            Some(s) => Some(s.string()),
            None => None,
        }
    }

    /// The presence bitmap to store as the USB boot flags: bit `i` set
    /// exactly when field `i` carries a value, plus the address-valid bit.
    /// It must be written as three identical redundant copies.
    #[verifier::rlimit(100)]
    pub fn usb_boot_flags(&self) -> (flags: u32)
        ensures
            flags == record_flags(self@),
    {
        let mut value: u32 = 0;
        if self.vendor_id.is_some() {
            value = value + 0x1;
        }
        if self.product_id.is_some() {
            value = value + 0x2;
        }
        if self.bcd_device.is_some() {
            value = value + 0x4;
        }
        if self.language_id.is_some() {
            value = value + 0x8;
        }
        if self.manufacturer.is_some() {
            value = value + 0x10;
        }
        if self.product.is_some() {
            value = value + 0x20;
        }
        if self.serial_number.is_some() {
            value = value + 0x40;
        }
        if self.attr_power.is_some() {
            value = value + 0x80;
        }
        if self.volume_label.is_some() {
            value = value + 0x100;
        }
        if self.scsi_vendor.is_some() {
            value = value + 0x200;
        }
        if self.scsi_product.is_some() {
            value = value + 0x400;
        }
        if self.scsi_version.is_some() {
            value = value + 0x800;
        }
        if self.redirect_url.is_some() {
            value = value + 0x1000;
        }
        if self.redirect_name.is_some() {
            value = value + 0x2000;
        }
        if self.uf2_model.is_some() {
            value = value + 0x4000;
        }
        if self.uf2_board_id.is_some() {
            value = value + 0x8000;
        }
        value = value + 0x400000;
        value
    }

    // The number of data rows one optional string contributes.
    fn opt_row_count(o: &Option<OtpString>) -> (n: u8)
        ensures
            n as int == (match opt_str_view(*o) {
                Some(s) => str_row_count(s),
                None => 0int,
            }),
    {
        match o {
            Some(s) => s.otp_row_count(),
            None => 0,
        }
    }

    /// The number of payload rows all present strings take together.
    #[verifier::rlimit(100)]
    pub fn total_strdef_row_count(&self) -> (n: usize)
        ensures
            n as int == payload_len_upto(self@, 16),
            n <= 2805,
    {
        let n = Self::opt_row_count(&self.manufacturer) as usize
            + Self::opt_row_count(&self.product) as usize
            + Self::opt_row_count(&self.serial_number) as usize
            + Self::opt_row_count(&self.volume_label) as usize
            + Self::opt_row_count(&self.scsi_vendor) as usize
            + Self::opt_row_count(&self.scsi_product) as usize
            + Self::opt_row_count(&self.scsi_version) as usize
            + Self::opt_row_count(&self.redirect_url) as usize
            + Self::opt_row_count(&self.redirect_name) as usize
            + Self::opt_row_count(&self.uf2_model) as usize
            + Self::opt_row_count(&self.uf2_board_id) as usize;
        n
    }

    /// The total number of rows the image of this record occupies: the
    /// 16-row header plus every present string's data rows.
    pub fn otp_row_count(&self) -> (n: usize)
        ensures
            n as int == total_rows(self@),
    {
        16 + self.total_strdef_row_count()
    }

    // The plain 16-bit header row at a plain-field index.
    fn u16_field_at(&self, i: usize) -> (v: u16)
        requires
            is_u16_index(i as int),
        ensures
            v == (match u16_field(self@, i as int) {
                Some(x) => x,
                None => 0u16,
            }),
    {
        if i == 0 {
            u16_or_zero(&self.vendor_id)
        } else if i == 1 {
            u16_or_zero(&self.product_id)
        } else if i == 2 {
            u16_or_zero(&self.bcd_device)
        } else if i == 3 {
            u16_or_zero(&self.language_id)
        } else {
            u16_or_zero(&self.attr_power)
        }
    }

    /// Lays out the full row image: the five plain values and eleven string
    /// descriptor words in the first 16 rows, then every present string's
    /// data rows, in field-index order, each at the offset its descriptor
    /// announces.
    pub fn to_otp_rows(&self) -> (rows: Vec<u16>)
        requires
            total_rows(self@) <= 255,
        ensures
            rows@ == record_rows(self@),
            rows@.len() == total_rows(self@),
    {
        let ghost r = self@;
        let mut rows: Vec<u16> = Vec::new();
        let mut offset: u8 = 16;
        let mut i: usize = 0;
        while i < 16
            invariant
                r == self@,
                total_rows(r) <= 255,
                i <= 16,
                rows@ =~= Seq::new(i as nat, |k: int| header_row(r, k)),
                offset as int == 16 + payload_len_upto(r, i as int),
            decreases 16 - i,
        {
            proof {
                lemma_payload_step(r, i as int);
            }
            if i == 0 || i == 1 || i == 2 || i == 3 || i == 7 {
                rows.push(self.u16_field_at(i));
            } else {
                match self.str_field_ref(i) {
                    Some(s) => {
                        let h = s.to_strdef(&mut offset);
                        rows.push(h);
                    },
                    None => {
                        rows.push(0u16);
                    },
                }
            }
            proof {
                assert(rows@ =~= Seq::new((i + 1) as nat, |k: int| header_row(r, k)));
            }
            i += 1;
        }
        let mut i: usize = 0;
        while i < 16
            invariant
                r == self@,
                i <= 16,
                rows@ =~= Seq::new(16, |k: int| header_row(r, k)) + payload_upto(r, i as int),
            decreases 16 - i,
        {
            proof {
                lemma_payload_step(r, i as int);
            }
            if !(i == 0 || i == 1 || i == 2 || i == 3 || i == 7) {
                match self.str_field_ref(i) {
                    Some(s) => {
                        let mut sr = s.to_otp_rows();
                        rows.append(&mut sr);
                    },
                    None => {},
                }
            }
            proof {
                assert(rows@ =~= Seq::new(16, |k: int| header_row(r, k)) + payload_upto(
                    r,
                    i as int + 1,
                ));
            }
            i += 1;
        }
        proof {
            lemma_payload_step(r, 15);
            assert(rows@ =~= record_rows(r));
            assert(payload_len_upto(r, 16) == payload_upto(r, 16).len()) by {
                assert(payload_len_upto(r, 16) == payload_len_upto(r, 15) + present_rows(r, 15));
                assert(payload_upto(r, 16) =~= payload_upto(r, 15) + str_rows_opt(r, 15));
            }
        }
        rows
    }

}

// The value of an optional plain field, or zero when absent.
fn u16_or_zero(o: &Option<u16>) -> (v: u16)
    ensures
        v == (match *o {
            Some(x) => x,
            None => 0u16,
        }),
{
    match o {
        Some(x) => *x,
        None => 0,
    }
}

impl Field {
    /// Checks the value this record holds for the field, handing back the
    /// issue found, if any.
    pub fn validate(&self, wls: &WhiteLabelStruct) -> (r: Result<(), Warning>)
        ensures
            match spec_field_issue(wls@, self.spec_index()) {
                Some(w) => r == Err::<(), Warning>(w),
                None => r is Ok,
            },
    {
        let i = self.index();
        if self.is_u16() {
            if i == 7 {
                match wls.attr_power() {
                    Some(v) => {
                        let attr = v % 256;
                        let power = v / 256;
                        if !(attr / 128 == 1 && attr % 32 == 0) {
                            return Err(Warning::InvalidAttributes { attributes: attr as u8 });
                        }
                        let max_ma: u16 = if (attr / 64) % 2 == 1 {
                            510
                        } else {
                            500
                        };
                        if power == 0 || 2 * power > max_ma {
                            return Err(
                                Warning::InvalidPower { power_ma: 2 * power, max_ma },
                            );
                        }
                        Ok(())
                    },
                    None => Ok(()),
                }
            } else if i == 2 {
                match wls.bcd_device() {
                    Some(v) => {
                        if (v / 4096) % 16 > 9 || (v / 16) % 16 > 9 || v % 16 > 9 {
                            Err(Warning::InvalidBcdDevice { bcd: v })
                        } else {
                            Ok(())
                        }
                    },
                    None => Ok(()),
                }
            } else {
                Ok(())
            }
        } else {
            match wls.str_field_ref(i) {
                Some(s) => {
                    let cnt = s.char_count() as usize;
                    let max = match self.max_length() {
                        Some(m) => m,
                        None => 0,
                    };
                    if cnt == 0 {
                        Err(Warning::EmptyString { field: i })
                    } else if cnt > max {
                        Err(Warning::StringTooLong { field: i, len: cnt, max })
                    } else if !self.supports_utf16() && !s.is_ascii() {
                        Err(Warning::NonAsciiString { field: i })
                    } else {
                        Ok(())
                    }
                },
                None => Ok(()),
            }
        }
    }
}

} // verus!

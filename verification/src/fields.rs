//! The static catalogue of the sixteen record fields.
//!
//! Indices 0-15 double as presence-bit positions and as row offsets in the
//! fixed header.  Five rows hold plain 16-bit values (0-3 and 7), the other
//! eleven hold string descriptor words.

use vstd::prelude::*;

use crate::Warning;

verus! {

/// Number of rows in the fixed header, one per field.
pub const NUM_FIELDS: usize = 16;

/// True for the five indices that hold a plain 16-bit value.
pub open spec fn is_u16_index(i: int) -> bool {
    i == 0 || i == 1 || i == 2 || i == 3 || i == 7
}

/// True for the eleven indices that hold a string descriptor.
pub open spec fn is_str_index(i: int) -> bool {
    0 <= i < 16 && !is_u16_index(i)
}

/// The declared maximum stored-character count of a string field.
pub open spec fn field_max_len(i: int) -> int {
    if i == 4 || i == 5 || i == 6 {
        30int
    } else if i == 8 {
        11int
    } else if i == 9 {
        8int
    } else if i == 10 {
        16int
    } else if i == 11 {
        4int
    } else if i == 12 || i == 13 || i == 14 || i == 15 {
        127int
    } else {
        0int
    }
}

/// True for the three string fields that may hold UTF-16 text.
pub open spec fn field_utf16_allowed(i: int) -> bool {
    i == 4 || i == 5 || i == 6
}

/// The name of the field at index `i`.
pub open spec fn spec_field_name(i: int) -> Seq<char> {
    if i == 0 {
        "usb_vendor_id"@
    } else if i == 1 {
        "usb_product_id"@
    } else if i == 2 {
        "usb_bcd_device"@
    } else if i == 3 {
        "usb_language_id"@
    } else if i == 4 {
        "usb_manufacturer"@
    } else if i == 5 {
        "usb_product"@
    } else if i == 6 {
        "usb_serial_number"@
    } else if i == 7 {
        "usb_attr_power"@
    } else if i == 8 {
        "volume_label"@
    } else if i == 9 {
        "scsi_vendor"@
    } else if i == 10 {
        "scsi_product"@
    } else if i == 11 {
        "scsi_version"@
    } else if i == 12 {
        "redirect_url"@
    } else if i == 13 {
        "redirect_name"@
    } else if i == 14 {
        "uf2_model"@
    } else {
        "uf2_board_id"@
    }
}

/// Whether bit `i` of a 16-bit presence mask is set.
pub open spec fn flag_bit(f: u16, i: int) -> bool {
    (f as int / (if i == 0 {
        0x1int
    } else if i == 1 {
        0x2int
    } else if i == 2 {
        0x4int
    } else if i == 3 {
        0x8int
    } else if i == 4 {
        0x10int
    } else if i == 5 {
        0x20int
    } else if i == 6 {
        0x40int
    } else if i == 7 {
        0x80int
    } else if i == 8 {
        0x100int
    } else if i == 9 {
        0x200int
    } else if i == 10 {
        0x400int
    } else if i == 11 {
        0x800int
    } else if i == 12 {
        0x1000int
    } else if i == 13 {
        0x2000int
    } else if i == 14 {
        0x4000int
    } else {
        0x8000int
    })) % 2 == 1
}

/// Tests bit `i` of a 16-bit presence mask.
pub fn flag_bit_set(f: u16, i: usize) -> (b: bool)
    requires
        i < 16,
    ensures
        b == flag_bit(f, i as int),
{
    let p: u16 = if i == 0 {
        0x1
    } else if i == 1 {
        0x2
    } else if i == 2 {
        0x4
    } else if i == 3 {
        0x8
    } else if i == 4 {
        0x10
    } else if i == 5 {
        0x20
    } else if i == 6 {
        0x40
    } else if i == 7 {
        0x80
    } else if i == 8 {
        0x100
    } else if i == 9 {
        0x200
    } else if i == 10 {
        0x400
    } else if i == 11 {
        0x800
    } else if i == 12 {
        0x1000
    } else if i == 13 {
        0x2000
    } else if i == 14 {
        0x4000
    } else {
        0x8000
    };
    (f / p) % 2 == 1
}

/// The validation issue carried by an attributes/power value, if any.
/// The low byte holds the attributes (bit 7 must be set, bits 0-4 clear),
/// the high byte the power draw in 2 mA units (non-zero, at most 510 mA
/// when self-powered, else at most 500 mA).
pub open spec fn spec_attr_power_issue(v: u16) -> Option<Warning> {
    let attr = v as int % 256;
    let power = v as int / 256;
    if !(attr / 128 == 1 && attr % 32 == 0) {
        Some(Warning::InvalidAttributes { attributes: attr as u8 })
    } else {
        let max_ma: int = if (attr / 64) % 2 == 1 {
            510int
        } else {
            500int
        };
        if power == 0 || 2 * power > max_ma {
            Some(Warning::InvalidPower { power_ma: (2 * power) as u16, max_ma: max_ma as u16 })
        } else {
            None
        }
    }
}

/// The validation issue carried by a BCD device revision, if any: the major
/// tens, minor and patch digit nibbles must each be at most 9.
pub open spec fn spec_bcd_issue(v: u16) -> Option<Warning> {
    if (v as int / 4096) % 16 > 9 || (v as int / 16) % 16 > 9 || v as int % 16 > 9 {
        Some(Warning::InvalidBcdDevice { bcd: v })
    } else {
        None
    }
}

/// The validation issue carried by a string field value, if any: it must be
/// non-empty, within the field's declared maximum, and ASCII where the field
/// forbids UTF-16.
pub open spec fn spec_string_issue(s: Seq<char>, i: int) -> Option<Warning> {
    if crate::strdef::str_char_count(s) == 0 {
        Some(Warning::EmptyString { field: i as usize })
    } else if crate::strdef::str_char_count(s) > field_max_len(i) {
        Some(
            Warning::StringTooLong {
                field: i as usize,
                len: crate::strdef::str_char_count(s) as usize,
                max: field_max_len(i) as usize,
            },
        )
    } else if !field_utf16_allowed(i) && !vstd::utf8::is_ascii_chars(s) {
        Some(Warning::NonAsciiString { field: i as usize })
    } else {
        None
    }
}

/// The storage kind of a field.
#[derive(Debug, Clone, PartialEq, Eq, Structural)]
pub enum FieldKind {
    /// String allowing both ASCII and UTF-16, with the given maximum number
    /// of stored characters.
    StringUtf16AndAscii(usize),
    /// String allowing only ASCII, with the given maximum number of stored
    /// characters.
    StringAsciiOnly(usize),
    /// Plain 16-bit value.
    U16,
}

/// The descriptor of one record field.
#[derive(Debug)]
pub struct Field {
    index: usize,
    name: &'static str,
    kind: FieldKind,
}

impl Clone for Field {
    fn clone(&self) -> (r: Self)
        ensures
            r == *self,
    {
        proof {
            use_type_invariant(&*self);
        }
        Field {
            index: self.index,
            name: self.name,
            kind: match self.kind {
                FieldKind::U16 => FieldKind::U16,
                FieldKind::StringUtf16AndAscii(n) => FieldKind::StringUtf16AndAscii(n),
                FieldKind::StringAsciiOnly(n) => FieldKind::StringAsciiOnly(n),
            },
        }
    }
}

impl Field {
    #[verifier::type_invariant]
    spec fn type_inv(self) -> bool {
        &&& self.index < 16
        &&& self.name@ == spec_field_name(self.index as int)
        &&& if is_u16_index(self.index as int) {
            self.kind == FieldKind::U16
        } else if field_utf16_allowed(self.index as int) {
            self.kind == FieldKind::StringUtf16AndAscii(field_max_len(self.index as int) as usize)
        } else {
            self.kind == FieldKind::StringAsciiOnly(field_max_len(self.index as int) as usize)
        }
    }

    /// The index of the field in the catalogue.
    pub closed spec fn spec_index(&self) -> int {
        self.index as int
    }

    /// The descriptor of the field at the given index.
    pub fn descriptor(index: usize) -> (f: Field)
        requires
            index < 16,
        ensures
            f.spec_index() == index as int,
    {
        let name = field_name(index);
        if index == 0 || index == 1 || index == 2 || index == 3 || index == 7 {
            Field { index, name, kind: FieldKind::U16 }
        } else if index == 4 || index == 5 || index == 6 {
            Field { index, name, kind: FieldKind::StringUtf16AndAscii(30) }
        } else if index == 8 {
            Field { index, name, kind: FieldKind::StringAsciiOnly(11) }
        } else if index == 9 {
            Field { index, name, kind: FieldKind::StringAsciiOnly(8) }
        } else if index == 10 {
            Field { index, name, kind: FieldKind::StringAsciiOnly(16) }
        } else if index == 11 {
            Field { index, name, kind: FieldKind::StringAsciiOnly(4) }
        } else {
            Field { index, name, kind: FieldKind::StringAsciiOnly(127) }
        }
    }

    /// The name of the field.
    pub fn name(&self) -> (r: &'static str)
        ensures
            r@ == spec_field_name(self.spec_index()),
    {
        proof {
            use_type_invariant(&*self);
        }
        self.name
    }

    /// The index of the field.
    pub fn index(&self) -> (i: usize)
        ensures
            i as int == self.spec_index(),
            i < 16,
    {
        proof {
            use_type_invariant(&*self);
        }
        self.index
    }

    /// True when the field holds a plain 16-bit value.
    pub fn is_u16(&self) -> (r: bool)
        ensures
            r == is_u16_index(self.spec_index()),
    {
        proof {
            use_type_invariant(&*self);
        }
        match self.kind {
            FieldKind::U16 => true,
            _ => false,
        }
    }

    /// True when the field holds a string.
    pub fn is_string(&self) -> (r: bool)
        ensures
            r == is_str_index(self.spec_index()),
    {
        proof {
            use_type_invariant(&*self);
        }
        !self.is_u16()
    }

    /// True when the field may hold UTF-16 text.
    pub fn supports_utf16(&self) -> (r: bool)
        ensures
            r == field_utf16_allowed(self.spec_index()),
    {
        proof {
            use_type_invariant(&*self);
        }
        match self.kind {
            FieldKind::StringUtf16AndAscii(_) => true,
            _ => false,
        }
    }

    /// The maximum stored-character count of a string field.
    pub fn max_length(&self) -> (r: Option<usize>)
        ensures
            match r {
                Some(m) => is_str_index(self.spec_index()) && m as int == field_max_len(
                    self.spec_index(),
                ),
                None => is_u16_index(self.spec_index()),
            },
    {
        proof {
            use_type_invariant(&*self);
        }
        match &self.kind {
            FieldKind::StringUtf16AndAscii(len) => Some(*len),
            FieldKind::StringAsciiOnly(len) => Some(*len),
            FieldKind::U16 => None,
        }
    }
}

/// The name of the field at the given index.
fn field_name(index: usize) -> (r: &'static str)
    requires
        index < 16,
    ensures
        r@ == spec_field_name(index as int),
{
    if index == 0 {
        "usb_vendor_id"
    } else if index == 1 {
        "usb_product_id"
    } else if index == 2 {
        "usb_bcd_device"
    } else if index == 3 {
        "usb_language_id"
    } else if index == 4 {
        "usb_manufacturer"
    } else if index == 5 {
        "usb_product"
    } else if index == 6 {
        "usb_serial_number"
    } else if index == 7 {
        "usb_attr_power"
    } else if index == 8 {
        "volume_label"
    } else if index == 9 {
        "scsi_vendor"
    } else if index == 10 {
        "scsi_product"
    } else if index == 11 {
        "scsi_version"
    } else if index == 12 {
        "redirect_url"
    } else if index == 13 {
        "redirect_name"
    } else if index == 14 {
        "uf2_model"
    } else {
        "uf2_board_id"
    }
}

} // verus!

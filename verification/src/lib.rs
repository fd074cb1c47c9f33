//! Encoding and decoding of the RP2350 USB white-label configuration record.
//!
//! The record is stored in one-time-programmable (OTP) memory as rows of
//! 16-bit words: a fixed 16-row header (five plain 16-bit fields and eleven
//! string descriptor words) followed by variable-length string payloads.
//! This crate builds that row image from a record, recovers a record from a
//! row image together with its presence bitmap ("USB boot flags"), and
//! resolves the triple-redundant copies of the bitmap found in a full chip
//! dump.

use vstd::prelude::*;

pub mod fields;
pub mod frontend;
pub mod image;
pub mod laws;
pub mod parse;
pub mod record;
pub mod strdef;

pub use fields::Field;
pub use frontend::{front_end_of_record, record_from_front_end, FrontEnd};
pub use image::OtpData;
pub use parse::OtpParseResult;
pub use record::WhiteLabelStruct;
pub use strdef::OtpString;

verus! {

/// A recoverable issue: either a validation problem with a field value, or
/// something suspicious met while decoding OTP rows.  Operations that can
/// meet such conditions complete and report them alongside their result.
#[derive(Clone, Copy, Debug, PartialEq, Eq, Structural)]
pub enum Warning {
    /// A string field holds an empty string.
    EmptyString { field: usize },
    /// A string field exceeds its declared maximum length.
    StringTooLong { field: usize, len: usize, max: usize },
    /// An ASCII-only string field holds non-ASCII characters.
    NonAsciiString { field: usize },
    /// The USB attributes byte breaks the required bit pattern.
    InvalidAttributes { attributes: u8 },
    /// The USB power draw is zero or above the allowed maximum (in mA).
    InvalidPower { power_ma: u16, max_ma: u16 },
    /// A checked BCD digit of the device revision is above 9.
    InvalidBcdDevice { bcd: u16 },
    /// The address-valid bit of the presence bitmap is clear.
    AddrValidBitClear,
    /// The DP/DM-swap indicator bit of the presence bitmap is set.
    DpDmSwapSet,
    /// Reserved bits of the presence bitmap are set; they are ignored.
    ReservedBitsSet,
    /// A field's presence bit is clear but its header row is non-zero.
    StaleData { field: usize, row: u16 },
    /// A string field's presence bit is set but its descriptor word is zero.
    StrdefZero { field: usize },
    /// A string descriptor points inside the fixed header region.
    OffsetInHeader { field: usize, offset: usize },
    /// A string's declared span runs past the end of the supplied rows.
    StringOutOfRange { field: usize, offset: usize, rows: usize },
    /// A UTF-16 string was found in a field that allows only ASCII.
    Utf16NotAllowed { field: usize },
    /// Padding bytes after an ASCII string's declared length are non-zero.
    NonZeroPadding { field: usize },
    /// The string payload could not be decoded as text.
    InvalidStringData { field: usize },
    /// A decoded string exceeds the field's declared maximum length.
    DecodedTooLong { field: usize, len: usize, max: usize },
    /// Too few rows to hold every string the presence bits announce; no
    /// strings were extracted at all.
    RowsTooShortForStrings { have: usize, need: usize },
    /// The supplied row count falls short of the span the decoded strings
    /// actually occupy.
    RowCountMismatch { have: usize, expected: usize },
}

/// A hard failure: the operation was aborted and nothing is returned.
#[derive(Clone, Debug, PartialEq, Eq)]
pub enum Error {
    /// Fewer rows than the fixed 16-row header were supplied.
    TooFewRows(usize),
    /// The address-valid bit is clear and strict checking was requested.
    InvalidWhiteLabelAddress,
    /// The stored start address of the record points at a reserved or
    /// out-of-range OTP row.
    InvalidWhiteLabelAddressValue(u16),
    /// The redundant copies of the presence bitmap cannot be reconciled.
    NonMatchingUsbBootFlags,
    /// The record carries validation warnings and strict generation or
    /// strict parsing was requested.
    InvalidWhiteLabelData(Vec<Warning>),
    /// The record's image would exceed the 255 rows the format can address.
    TooManyRows(usize),
    /// A string is longer than the 127 characters the format can hold.
    StringTooLong(usize),
    /// A front-end value breaks its declared format (hex shape, decimal
    /// digit range, length or ASCII constraint); the payload is the header
    /// index of the field it stands for.
    InvalidFrontEndValue(usize),
}

} // verus!

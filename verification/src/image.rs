//! The memory-image adapter: the row image of one record paired with its
//! presence bitmap, as read from or written to device memory.
//!
//! A full chip dump carries three redundant copies of the presence bitmap
//! at fixed row indices and a pointer to the record's start row; extraction
//! resolves the copies by majority vote and copies a fixed worst-case
//! window of rows from the resolved address.

use vstd::prelude::*;

use crate::parse::{spec_addr_valid_bit, spec_parse, OtpParseResult};
use crate::record::{clone_warnings, record_flags, record_rows, total_rows, WhiteLabelStruct};
use crate::strdef::spec_unpack_bytes;
use crate::{Error, Warning};

verus! {

/// OTP row index of the first presence-bitmap copy.
pub const OTP_ROW_USB_BOOT_FLAGS: u16 = 0x059;

/// OTP row index of the second presence-bitmap copy.
pub const OTP_ROW_USB_BOOT_FLAGS_R1: u16 = 0x05a;

/// OTP row index of the third presence-bitmap copy.
pub const OTP_ROW_USB_BOOT_FLAGS_R2: u16 = 0x05b;

/// OTP row index of the pointer to the record's first row.
pub const OTP_ROW_USB_WHITE_LABEL_DATA: u16 = 0x05c;

/// First OTP row of the window open for record storage.
pub const OTP_ROW_UNRESERVED_START: u16 = 0x0c0;

/// First reserved OTP row after the window open for record storage.
pub const OTP_ROW_UNRESERVED_END: u16 = 0xf40;

/// Number of rows of the chip's OTP memory.
pub const TOTAL_OTP_ROWS: usize = 4096;

/// Rows assumed available for record storage when checking the pointer.
pub const MIN_REQD_OTP_WHITE_LABEL_ROWS: usize = 256;

/// The worst-case window copied from a full dump: the last string can
/// start at row offset 255 and run for 64 more rows.
pub const MAX_OTP_WHITE_LABEL_ROWS: usize = 319;

/// Largest pointer value that leaves the assumed minimum window inside the
/// unreserved region.
pub const MAX_WHITELABEL_ADDR: u16 = 0xe40;

/// Resolving the three redundant bitmap copies: in strict mode all three
/// must agree; otherwise any two that agree carry the vote, and three
/// distinct values are irreconcilable.
pub open spec fn spec_vote(f0: u32, f1: u32, f2: u32, strict: bool) -> Option<u32> {
    if strict {
        if f0 == f1 && f0 == f2 {
            Some(f0)
        } else {
            None
        }
    } else {
        if f0 == f1 || f0 == f2 {
            Some(f0)
        } else if f1 == f2 {
            Some(f1)
        } else {
            None
        }
    }
}

/// The mathematical model of a memory image.
#[verifier::ext_equal]
pub struct OtpDataView {
    pub usb_boot_flags: u32,
    pub rows: Seq<u16>,
    pub strict: bool,
}

/// A record's row image together with the presence bitmap to store as the
/// three redundant boot-flag copies.
#[derive(Debug)]
pub struct OtpData {
    usb_boot_flags: u32,
    rows: Vec<u16>,
    strict: bool,
}

impl View for OtpData {
    type V = OtpDataView;

    closed spec fn view(&self) -> OtpDataView {
        OtpDataView { usb_boot_flags: self.usb_boot_flags, rows: self.rows@, strict: self.strict }
    }
}

// Copies a row vector.
fn clone_rows(v: &Vec<u16>) -> (r: Vec<u16>)
    ensures
        r@ == v@,
{
    let mut r: Vec<u16> = Vec::new();
    let mut i: usize = 0;
    while i < v.len()
        invariant
            i <= v@.len(),
            r@ =~= v@.take(i as int),
        decreases v@.len() - i,
    {
        r.push(v[i]);
        proof {
            assert(r@ =~= v@.take(i as int + 1));
        }
        i += 1;
    }
    proof {
        assert(v@.take(v@.len() as int) =~= v@);
    }
    r
}

impl Clone for OtpData {
    fn clone(&self) -> (r: Self)
        ensures
            r@ == self@,
    {
        OtpData {
            usb_boot_flags: self.usb_boot_flags,
            rows: clone_rows(&self.rows),
            strict: self.strict,
        }
    }
}

impl PartialEq for OtpData {
    fn eq(&self, other: &Self) -> (r: bool) {
        let rows_eq = {
            if self.rows.len() != other.rows.len() {
                false
            } else {
                let mut i: usize = 0;
                let mut eq = true;
                while i < self.rows.len()
                    invariant
                        self.rows@.len() == other.rows@.len(),
                        i <= self.rows@.len(),
                        eq == (forall|j: int| 0 <= j < i ==> self.rows@[j] == other.rows@[j]),
                    decreases self.rows@.len() - i,
                {
                    if self.rows[i] != other.rows[i] {
                        eq = false;
                    }
                    i += 1;
                }
                proof {
                    if eq {
                        assert(self.rows@ =~= other.rows@);
                    }
                }
                eq
            }
        };
        let r = self.usb_boot_flags == other.usb_boot_flags && rows_eq && self.strict
            == other.strict;
        proof {
            if r {
                assert(self@ =~= other@);
            }
        }
        r
    }
}

impl vstd::std_specs::cmp::PartialEqSpecImpl for OtpData {
    open spec fn obeys_eq_spec() -> bool {
        true
    }

    open spec fn eq_spec(&self, other: &Self) -> bool {
        self@ == other@
    }
}

impl OtpData {
    /// Wraps a presence bitmap and row image, remembering whether strict
    /// checking is wanted.
    pub fn new(usb_boot_flags: u32, rows: Vec<u16>, strict: bool) -> (r: OtpData)
        ensures
            r@ == (OtpDataView { usb_boot_flags, rows: rows@, strict }),
    {
        OtpData { usb_boot_flags, rows, strict }
    }

    /// The presence bitmap to write, three times, as the boot flags.
    pub fn usb_boot_flags(&self) -> (r: u32)
        ensures
            r == self@.usb_boot_flags,
    {
        self.usb_boot_flags
    }

    /// The rows of the record's image.
    pub fn rows(&self) -> (r: &Vec<u16>)
        ensures
            r@ == self@.rows,
    {
        &self.rows
    }

    /// Whether strict checking was requested.
    pub fn strict(&self) -> (r: bool)
        ensures
            r == self@.strict,
    {
        self.strict
    }

    /// The rows serialized for the wire: each row becomes two bytes, low
    /// byte first.
    pub fn to_le_ecc_bytes(&self) -> (r: Vec<u8>)
        ensures
            r@ == spec_unpack_bytes(self@.rows),
    {
        let mut bytes: Vec<u8> = Vec::new();
        let mut k: usize = 0;
        while k < self.rows.len()
            invariant
                k <= self.rows@.len(),
                bytes@ =~= spec_unpack_bytes(self.rows@).take(2 * k as int),
            decreases self.rows@.len() - k,
        {
            let row = self.rows[k];
            bytes.push((row % 256) as u8);
            bytes.push((row / 256) as u8);
            proof {
                assert(bytes@ =~= spec_unpack_bytes(self.rows@).take(2 * (k as int + 1)));
            }
            k += 1;
        }
        proof {
            assert(spec_unpack_bytes(self.rows@).take(2 * self.rows@.len() as int)
                =~= spec_unpack_bytes(self.rows@));
        }
        bytes
    }

    /// Wraps rows read from the record's stored location together with the
    /// boot flags read beside them.  In strict mode a clear address-valid
    /// bit is a hard failure; otherwise the image is taken as given.
    pub fn from_white_label_data(usb_boot_flags: u32, ecc_rows: &[u16], strict: bool) -> (r:
        Result<OtpData, Error>)
        ensures
            match r {
                Ok(od) => {
                    &&& !(strict && !spec_addr_valid_bit(usb_boot_flags))
                    &&& od@ == (OtpDataView { usb_boot_flags, rows: ecc_rows@, strict })
                },
                Err(e) => {
                    &&& strict && !spec_addr_valid_bit(usb_boot_flags)
                    &&& e == Error::InvalidWhiteLabelAddress
                },
            },
    {
        if strict && (usb_boot_flags / 0x400000) % 2 == 0 {
            return Err(Error::InvalidWhiteLabelAddress);
        }
        let mut rows: Vec<u16> = Vec::new();
        let n = ecc_rows.len();
        let mut k: usize = 0;
        while k < n
            invariant
                n == ecc_rows@.len(),
                k <= n,
                rows@ =~= ecc_rows@.take(k as int),
            decreases n - k,
        {
            rows.push(ecc_rows[k]);
            proof {
                assert(rows@ =~= ecc_rows@.take(k as int + 1));
            }
            k += 1;
        }
        proof {
            assert(ecc_rows@.take(n as int) =~= ecc_rows@);
        }
        Ok(OtpData { usb_boot_flags, rows, strict })
    }

    /// Extracts the record's image from a full chip dump: resolves the
    /// three redundant boot-flag copies (all equal in strict mode, majority
    /// vote otherwise), checks the stored start address (against the
    /// unreserved window in strict mode, against the dump's end otherwise),
    /// and copies the fixed worst-case window of rows from that address.
    pub fn from_full_otp_data(
        non_ecc_data: &[u32; 4096],
        ecc_data: &[u16; 4096],
        strict: bool,
    ) -> (r: Result<OtpData, Error>)
        ensures
            ({
                let vote = spec_vote(
                    non_ecc_data@[0x59],
                    non_ecc_data@[0x5a],
                    non_ecc_data@[0x5b],
                    strict,
                );
                match vote {
                    None => r == Err::<OtpData, Error>(Error::NonMatchingUsbBootFlags),
                    Some(flags) => {
                        let addr = ecc_data@[0x5c];
                        if strict && !(OTP_ROW_UNRESERVED_START <= addr <= MAX_WHITELABEL_ADDR) {
                            r == Err::<OtpData, Error>(Error::InvalidWhiteLabelAddressValue(addr))
                        } else if addr as int + 319 > 4096 {
                            r == Err::<OtpData, Error>(Error::InvalidWhiteLabelAddressValue(addr))
                        } else if strict && !spec_addr_valid_bit(flags) {
                            r == Err::<OtpData, Error>(Error::InvalidWhiteLabelAddress)
                        } else {
                            match r {
                                Ok(od) => od@ == (OtpDataView {
                                    usb_boot_flags: flags,
                                    rows: ecc_data@.subrange(addr as int, addr as int + 319),
                                    strict,
                                }),
                                Err(_) => false,
                            }
                        }
                    },
                }
            }),
    {
        let f0 = non_ecc_data[0x59];
        let f1 = non_ecc_data[0x5a];
        let f2 = non_ecc_data[0x5b];
        let flags: u32 = if strict {
            if f0 != f1 || f0 != f2 {
                return Err(Error::NonMatchingUsbBootFlags);
            }
            f0
        } else {
            if f0 == f1 || f0 == f2 {
                f0
            } else if f1 == f2 {
                f1
            } else {
                return Err(Error::NonMatchingUsbBootFlags);
            }
        };
        let addr = ecc_data[0x5c];
        if strict && (addr < OTP_ROW_UNRESERVED_START || addr > MAX_WHITELABEL_ADDR) {
            return Err(Error::InvalidWhiteLabelAddressValue(addr));
        }
        if addr as usize + MAX_OTP_WHITE_LABEL_ROWS > TOTAL_OTP_ROWS {
            return Err(Error::InvalidWhiteLabelAddressValue(addr));
        }
        let start = addr as usize;
        let mut rows: Vec<u16> = Vec::new();
        let mut k: usize = 0;
        while k < MAX_OTP_WHITE_LABEL_ROWS
            invariant
                start + 319 <= 4096,
                k <= 319,
                rows@ =~= ecc_data@.subrange(start as int, start as int + k as int),
            decreases 319 - k,
        {
            rows.push(ecc_data[start + k]);
            proof {
                assert(rows@ =~= ecc_data@.subrange(start as int, start as int + k as int + 1));
            }
            k += 1;
        }
        Self::from_white_label_data(flags, rows.as_slice(), strict)
    }
}

impl WhiteLabelStruct {
    /// The image of this record, for writing to a device: fails when the
    /// record carries validation warnings or its image would not fit the
    /// 255 rows the format can address.
    pub fn to_otp_data_strict(&self) -> (r: Result<OtpData, Error>)
        ensures
            match r {
                Ok(od) => {
                    &&& self@.warnings.len() == 0
                    &&& total_rows(self@) <= 255
                    &&& od@ == (OtpDataView {
                        usb_boot_flags: record_flags(self@),
                        rows: record_rows(self@),
                        strict: true,
                    })
                },
                Err(e) => match e {
                    Error::InvalidWhiteLabelData(w) => self@.warnings.len() > 0 && w@
                        == self@.warnings,
                    Error::TooManyRows(n) => self@.warnings.len() == 0 && n as int == total_rows(
                        self@,
                    ) && total_rows(self@) > 255,
                    _ => false,
                },
            },
    {
        if !self.is_clean() {
            return Err(Error::InvalidWhiteLabelData(clone_warnings(self.warnings())));
        }
        self.create_otp_data(true)
    }

    /// The image of this record even when it carries validation warnings;
    /// fails only when the image would not fit 255 rows.
    pub fn to_otp_data_loose(&self) -> (r: Result<OtpData, Error>)
        ensures
            match r {
                Ok(od) => {
                    &&& total_rows(self@) <= 255
                    &&& od@ == (OtpDataView {
                        usb_boot_flags: record_flags(self@),
                        rows: record_rows(self@),
                        strict: false,
                    })
                },
                Err(e) => {
                    &&& e matches Error::TooManyRows(n) && n as int == total_rows(self@)
                    &&& total_rows(self@) > 255
                },
            },
    {
        self.create_otp_data(false)
    }

    // Builds the image once the warning policy has been applied.
    fn create_otp_data(&self, strict: bool) -> (r: Result<OtpData, Error>)
        ensures
            match r {
                Ok(od) => {
                    &&& total_rows(self@) <= 255
                    &&& od@ == (OtpDataView {
                        usb_boot_flags: record_flags(self@),
                        rows: record_rows(self@),
                        strict,
                    })
                },
                Err(e) => {
                    &&& e matches Error::TooManyRows(n) && n as int == total_rows(self@)
                    &&& total_rows(self@) > 255
                },
            },
    {
        let n = self.otp_row_count();
        if n > 255 {
            return Err(Error::TooManyRows(n));
        }
        let rows = self.to_otp_rows();
        let usb_boot_flags = self.usb_boot_flags();
        Ok(OtpData::new(usb_boot_flags, rows, strict))
    }

    /// Recovers a record from an image.  Fails when the image has fewer
    /// rows than the fixed header, or, under strict checking, when parsing
    /// raised any warning.
    pub fn from_otp_data(otp_data: &OtpData) -> (r: Result<WhiteLabelStruct, Error>)
        ensures
            match spec_parse(otp_data@.usb_boot_flags, otp_data@.rows) {
                None => r == Err::<WhiteLabelStruct, Error>(Error::TooFewRows(16)),
                Some(p) => {
                    if p.warnings.len() > 0 && otp_data@.strict {
                        match r {
                            Err(e) => e matches Error::InvalidWhiteLabelData(w) && w@ == p.warnings,
                            Ok(_) => false,
                        }
                    } else {
                        match r {
                            Ok(wl) => wl@ == p.record,
                            Err(_) => false,
                        }
                    }
                },
            },
    {
        let result = match WhiteLabelStruct::parse_otp(
            otp_data.usb_boot_flags(),
            otp_data.rows().as_slice(),
        ) {
            Ok(res) => res,
            Err(e) => {
                return Err(e);
            },
        };
        if result.is_clean() {
            Ok(result.white_label().clone())
        } else if otp_data.strict() {
            Err(Error::InvalidWhiteLabelData(clone_warnings(result.warnings())))
        } else {
            Ok(result.white_label().clone())
        }
    }
}

} // verus!

use pico_otp::{OtpString, WhiteLabelStruct};

#[test]
fn test_string_to_otp_string() {
    let s = OtpString::new("hello".to_string()).unwrap();
    assert_eq!(s.char_count(), 5);
    assert_eq!(s.is_ascii(), true);
    assert_eq!(s.is_utf16(), false);
    assert_eq!(s.otp_row_count(), 3);
    let otp_rows = s.to_otp_rows();
    assert_eq!(otp_rows, vec![0x6568, 0x6c6c, 0x006f]);
}

#[test]
fn test_utf16_string_to_otp_string() {
    let s = OtpString::new("héllo".to_string()).unwrap();
    assert_eq!(s.char_count(), 5);
    assert_eq!(s.is_ascii(), false);
    assert_eq!(s.is_utf16(), true);
    assert_eq!(s.otp_row_count(), 5);
    let otp_rows = s.to_otp_rows();
    assert_eq!(otp_rows, vec![0x0068, 0x00e9, 0x006c, 0x006c, 0x006f]);
    let mut off = 10u8;
    let strdef = s.to_strdef(&mut off);
    assert_eq!(strdef, 0x0A85);
}

#[test]
fn test_to_otp_rows_ascii() {
    let s = OtpString::new("ABCD".to_string()).unwrap();
    let rows = s.to_otp_rows();
    assert_eq!(rows, vec![0x4241, 0x4443]);
    let mut off = 5u8;
    let strdef = s.to_strdef(&mut off);
    assert_eq!(strdef, 0x0504);
    assert_eq!(s.otp_row_count(), 2);

    let s = OtpString::new("abcde".to_string()).unwrap();
    let rows = s.to_otp_rows();
    assert_eq!(rows, vec![0x6261, 0x6463, 0x0065]);
    let mut off = 3u8;
    let strdef = s.to_strdef(&mut off);
    assert_eq!(strdef, 0x0305);
    assert_eq!(s.otp_row_count(), 3);
}

#[test]
fn test_to_otp_rows_utf16() {
    let s = OtpString::new("héllo".to_string()).unwrap();
    let rows = s.to_otp_rows();
    assert_eq!(rows, vec![0x0068, 0x00e9, 0x006c, 0x006c, 0x006f]);
    let mut off = 8u8;
    let strdef = s.to_strdef(&mut off);
    assert_eq!(strdef, 0x0805 | 0x0080);
    assert_eq!(s.char_count(), 5);
    assert_eq!(s.otp_row_count(), 5);

    let s = OtpString::new("hello😀".to_string()).unwrap();
    let rows = s.to_otp_rows();
    assert_eq!(rows, vec![0x0068, 0x0065, 0x006c, 0x006c, 0x006f, 0xd83d, 0xde00]);
    let mut off = 12u8;
    let strdef = s.to_strdef(&mut off);
    assert_eq!(strdef, 0x0C07 | 0x0080);
    assert_eq!(s.char_count(), 7);
    assert_eq!(s.otp_row_count(), 7);
}

#[test]
fn test_string_too_long() {
    let long_string = "a".repeat(128);
    assert!(OtpString::new(long_string).is_err());
    let max_string = "a".repeat(127);
    let s = OtpString::new(max_string).unwrap();
    assert_eq!(s.otp_row_count(), 64);
}

#[test]
fn test_empty() {
    let wls = WhiteLabelStruct::default();
    assert_eq!(wls.usb_boot_flags(), 0x0040_0000);
    let rows = wls.to_otp_rows();
    assert_eq!(rows.len(), 16);
    let parsed = WhiteLabelStruct::parse_otp(wls.usb_boot_flags(), &rows).unwrap();
    assert!(parsed.is_clean());
    assert_eq!(*parsed.white_label(), wls);
}

#[test]
fn reserved_bitmap_bits_warn() {
    // Bit 21 is reserved: with it set beside the address-valid bit, decoding
    // must report the reserved bits even though no presence bit is set.
    let rows = [0u16; 16];
    let parsed = WhiteLabelStruct::parse_otp(0x0060_0000, &rows).unwrap();
    assert!(!parsed.is_clean());
    let warnings = parsed.warnings();
    assert_eq!(warnings.len(), 1);
    assert!(matches!(warnings[0], pico_otp::Warning::ReservedBitsSet));
    // With only the address-valid bit set the same rows decode cleanly.
    let clean = WhiteLabelStruct::parse_otp(0x0040_0000, &rows).unwrap();
    assert!(clean.is_clean());
}

#[test]
fn test_vid() {
    let mut wls = WhiteLabelStruct::default();
    wls.set_vid(0x1234);
    assert!(wls.is_clean());
    assert_eq!(wls.vid(), Some(0x1234));
    assert!(wls.to_otp_data_strict().is_ok());
}

#[test]
fn test_pid() {
    let mut wls = WhiteLabelStruct::default();
    wls.set_pid(0x5678);
    assert!(wls.is_clean());
    assert_eq!(wls.pid(), Some(0x5678));
    assert!(wls.to_otp_data_strict().is_ok());
}

#[test]
fn test_bcd() {
    let mut wls = WhiteLabelStruct::default();
    wls.set_bcd_device(0x0200);
    assert!(wls.is_clean());
    assert_eq!(wls.bcd_device(), Some(0x0200));
    assert!(wls.to_otp_data_strict().is_ok());
}

use pico_otp::{Warning, WhiteLabelStruct};

fn set_field(wls: &mut WhiteLabelStruct, field: &str, value: &str) -> Result<(), pico_otp::Error> {
    match field {
        "manufacturer" => wls.set_manufacturer(value),
        "product" => wls.set_product(value),
        "serial_number" => wls.set_serial_number(value),
        "volume_label" => wls.set_volume_label(value),
        "scsi_vendor" => wls.set_scsi_vendor(value),
        "scsi_product" => wls.set_scsi_product(value),
        "scsi_version" => wls.set_scsi_version(value),
        "uf2_model" => wls.set_uf2_model(value),
        "uf2_board_id" => wls.set_uf2_board_id(value),
        "redirect_url" => wls.set_redirect_url(value),
        "redirect_name" => wls.set_redirect_name(value),
        _ => panic!("unknown field"),
    }
}

fn get_field<'a>(wls: &'a WhiteLabelStruct, field: &str) -> Option<&'a String> {
    match field {
        "manufacturer" => wls.manufacturer(),
        "product" => wls.product(),
        "serial_number" => wls.serial_number(),
        "volume_label" => wls.volume_label(),
        "scsi_vendor" => wls.scsi_vendor(),
        "scsi_product" => wls.scsi_product(),
        "scsi_version" => wls.scsi_version(),
        "uf2_model" => wls.uf2_model(),
        "uf2_board_id" => wls.uf2_board_id(),
        "redirect_url" => wls.redirect_url(),
        "redirect_name" => wls.redirect_name(),
        _ => panic!("unknown field"),
    }
}

fn test_string(field: &str, good: bool, set_failure: bool, value: &str) {
    let mut wls = WhiteLabelStruct::default();
    match set_field(&mut wls, field, value) {
        Ok(()) => {
            assert!(!set_failure, "expected failure setting {field}");
        }
        Err(_) => {
            assert!(set_failure, "unexpected failure setting {field}");
            return;
        }
    }
    if good {
        assert!(wls.is_clean());
    } else {
        assert!(!wls.is_clean());
    }
    assert_eq!(get_field(&wls, field), Some(&value.to_string()));
    let od = wls.to_otp_data_strict();
    if good {
        assert!(od.is_ok());
    } else {
        assert!(od.is_err());
    }
}

fn do_string_test(field: &str, unicode: bool, max_len: usize) {
    test_string(field, unicode, false, "😀");
    test_string(field, unicode, false, "号");
    test_string(field, true, false, &"a".repeat(max_len));
    // an empty string is a warning
    test_string(field, false, false, "");
    // one character over the declared maximum warns; over 127 it cannot be
    // built at all
    let too_long = max_len + 1;
    let set_failure = too_long > 127;
    test_string(field, false, set_failure, &"a".repeat(too_long));
}

#[test]
fn test_manufacturer() {
    do_string_test("manufacturer", true, 30);
}

#[test]
fn test_product() {
    do_string_test("product", true, 30);
}

#[test]
fn test_serial_number() {
    do_string_test("serial_number", true, 30);
}

#[test]
fn lib_test_volume_label() {
    do_string_test("volume_label", false, 11);
}

#[test]
fn lib_test_scsi_vendor() {
    do_string_test("scsi_vendor", false, 8);
}

#[test]
fn lib_test_scsi_product() {
    do_string_test("scsi_product", false, 16);
}

#[test]
fn lib_test_scsi_version() {
    do_string_test("scsi_version", false, 4);
}

#[test]
fn test_uf2_model() {
    do_string_test("uf2_model", false, 127);
}

#[test]
fn test_uf2_board_id() {
    do_string_test("uf2_board_id", false, 127);
}

#[test]
fn test_redirect_url() {
    do_string_test("redirect_url", false, 127);
}

#[test]
fn test_redirect_name() {
    do_string_test("redirect_name", false, 127);
}

const OTP_ROWS_COMPLETE_CONFIG: [u16; 75] = [
    0x1234, 0x4678, 0x0100, 0x0409, 0x100B, 0x1608, 0x1A08, 0xFA80, 0x1E0B, 0x2408, 0x2808,
    0x2C04, 0x2E14, 0x380B, 0x3E08, 0x4211, 0x6970, 0x7265, 0x2E73, 0x6F72, 0x6B63, 0x0073,
    0x6970, 0x6F63, 0x6F2D, 0x7074, 0x3231, 0x3433, 0x6261, 0x6463, 0x4950, 0x5245, 0x2E53,
    0x4F52, 0x4B43, 0x0053, 0x6970, 0x7265, 0x7273, 0x736B, 0x6970, 0x6F63, 0x6F2D, 0x7074,
    0x3176, 0x3332, 0x7468, 0x7074, 0x3A73, 0x2F2F, 0x6970, 0x7265, 0x2E73, 0x6F72, 0x6B63,
    0x2F73, 0x6970, 0x7265, 0x2E73, 0x6F72, 0x6B63, 0x0073, 0x6970, 0x6F63, 0x6F2D, 0x7074,
    0x6970, 0x6F63, 0x6F2D, 0x7074, 0x6220, 0x616F, 0x6472, 0x6920, 0x0064,
];

#[test]
fn test_from_otp_data_warnings() {
    let usb_boot_flags = 0x0000_ffff;
    let parse_result = WhiteLabelStruct::parse_otp(usb_boot_flags, &OTP_ROWS_COMPLETE_CONFIG);
    assert!(parse_result.is_ok());
    let parse_result = parse_result.unwrap();
    assert!(!parse_result.is_clean());
    let warnings = parse_result.warnings();
    assert_eq!(warnings.len(), 1);
    assert!(matches!(warnings[0], Warning::AddrValidBitClear));
}

#[test]
fn test_complete() {
    // a record with every field populated round-trips cleanly
    let usb_boot_flags = 0x0040_ffff;
    let parse_result = WhiteLabelStruct::parse_otp(usb_boot_flags, &OTP_ROWS_COMPLETE_CONFIG).unwrap();
    assert!(parse_result.is_clean());
    let wl = parse_result.white_label();
    assert_eq!(wl.usb_boot_flags(), usb_boot_flags);
    let rows = wl.to_otp_rows();
    assert_eq!(rows, OTP_ROWS_COMPLETE_CONFIG.to_vec());
    let again = WhiteLabelStruct::parse_otp(usb_boot_flags, &rows).unwrap();
    assert!(again.is_clean());
    assert_eq!(again.white_label(), wl);
}

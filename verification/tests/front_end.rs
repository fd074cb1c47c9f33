use pico_otp::{
    front_end_of_record, record_from_front_end, Error, FrontEnd, WhiteLabelStruct,
};

fn format_err(r: &Result<WhiteLabelStruct, Error>, field: usize) -> bool {
    matches!(r, Err(Error::InvalidFrontEndValue(i)) if *i == field)
}

/// The front end of the reference sample configuration.
fn sample_front_end() -> FrontEnd {
    FrontEnd {
        vid: Some("0x1234".to_string()),
        pid: Some("0x4678".to_string()),
        bcd: Some((1, 0, 0)),
        manufacturer: Some("piers.rocks".to_string()),
        product: Some("pico-otp".to_string()),
        serial_number: Some("1234abcd".to_string()),
        scsi_vendor: Some("piersrks".to_string()),
        scsi_product: Some("pico-otp".to_string()),
        scsi_version: Some("v123".to_string()),
        volume_label: Some("PIERS.ROCKS".to_string()),
        redirect_url: Some("https://piers.rocks/".to_string()),
        redirect_name: Some("piers.rocks".to_string()),
        uf2_model: Some("pico-otp".to_string()),
        uf2_board_id: Some("pico-otp board id".to_string()),
        ..FrontEnd::default()
    }
}

#[test]
fn test_valid_config() {
    let fe = FrontEnd {
        vid: Some("0x1234".to_string()),
        pid: Some("0xabcd".to_string()),
        lang_id: Some("0x0409".to_string()),
        max_power: Some("0x32".to_string()),
        attributes: Some("0x80".to_string()),
        ..FrontEnd::default()
    };
    assert!(record_from_front_end(&fe).is_ok());
}

#[test]
fn tests_test_sample() {
    let wl = record_from_front_end(&sample_front_end()).unwrap();
    assert_eq!(wl.vid(), Some(0x1234));
    assert_eq!(wl.pid(), Some(0x4678));
    assert_eq!(wl.bcd_device(), Some(0x0100));
    assert_eq!(wl.language_id(), None);
    assert_eq!(wl.manufacturer(), Some(&"piers.rocks".to_string()));
    assert_eq!(wl.product(), Some(&"pico-otp".to_string()));
    assert_eq!(wl.serial_number(), Some(&"1234abcd".to_string()));
    assert_eq!(wl.attr_power(), None);
    assert_eq!(wl.scsi_vendor(), Some(&"piersrks".to_string()));
    assert_eq!(wl.scsi_product(), Some(&"pico-otp".to_string()));
    assert_eq!(wl.scsi_version(), Some(&"v123".to_string()));
    assert_eq!(wl.volume_label(), Some(&"PIERS.ROCKS".to_string()));
    assert_eq!(wl.redirect_url(), Some(&"https://piers.rocks/".to_string()));
    assert_eq!(wl.redirect_name(), Some(&"piers.rocks".to_string()));
    assert_eq!(wl.uf2_model(), Some(&"pico-otp".to_string()));
    assert_eq!(wl.uf2_board_id(), Some(&"pico-otp board id".to_string()));
}

#[test]
fn test_realistic() {
    let wl = record_from_front_end(&sample_front_end()).unwrap();
    assert_eq!(wl.vid(), Some(0x1234));
    assert_eq!(wl.pid(), Some(0x4678));
    assert_eq!(wl.bcd_device(), Some(0x0100));
    assert_eq!(wl.language_id(), None);
    assert_eq!(wl.attr_power(), None);
    assert_eq!(wl.manufacturer(), Some(&"piers.rocks".to_string()));
}

#[test]
fn test_basic() {
    let fe = FrontEnd {
        manufacturer: Some("piers.rocks".to_string()),
        product: Some("pico-otp".to_string()),
        serial_number: Some("1234abcd".to_string()),
        scsi_vendor: Some("piersrks".to_string()),
        scsi_product: Some("pico-otp".to_string()),
        scsi_version: Some("v123".to_string()),
        volume_label: Some("PIERS.ROCKS".to_string()),
        redirect_url: Some("https://piers.rocks/".to_string()),
        redirect_name: Some("piers.rocks".to_string()),
        uf2_model: Some("pico-otp".to_string()),
        uf2_board_id: Some("pico-otp board id".to_string()),
        ..FrontEnd::default()
    };
    let wl = record_from_front_end(&fe).unwrap();
    assert_eq!(wl.vid(), None);
    assert_eq!(wl.pid(), None);
    assert_eq!(wl.bcd_device(), None);
    assert_eq!(wl.language_id(), None);
    assert_eq!(wl.attr_power(), None);
    assert_eq!(wl.manufacturer(), Some(&"piers.rocks".to_string()));
    assert_eq!(wl.product(), Some(&"pico-otp".to_string()));
    assert_eq!(wl.serial_number(), Some(&"1234abcd".to_string()));
    assert_eq!(wl.scsi_vendor(), Some(&"piersrks".to_string()));
    assert_eq!(wl.scsi_product(), Some(&"pico-otp".to_string()));
    assert_eq!(wl.scsi_version(), Some(&"v123".to_string()));
    assert_eq!(wl.volume_label(), Some(&"PIERS.ROCKS".to_string()));
    assert_eq!(wl.redirect_url(), Some(&"https://piers.rocks/".to_string()));
    assert_eq!(wl.redirect_name(), Some(&"piers.rocks".to_string()));
    assert_eq!(wl.uf2_model(), Some(&"pico-otp".to_string()));
    assert_eq!(wl.uf2_board_id(), Some(&"pico-otp board id".to_string()));
}

#[test]
fn tests_test_utf16() {
    let fe = FrontEnd {
        manufacturer: Some("😀piers.rocks".to_string()),
        product: Some("pico⚡otp".to_string()),
        serial_number: Some("1234abcd号".to_string()),
        ..FrontEnd::default()
    };
    let wl = record_from_front_end(&fe).unwrap();
    assert_eq!(wl.manufacturer(), Some(&"😀piers.rocks".to_string()));
    assert_eq!(wl.product(), Some(&"pico⚡otp".to_string()));
    assert_eq!(wl.serial_number(), Some(&"1234abcd号".to_string()));
}

#[test]
fn top_test_sample() {
    let wl = record_from_front_end(&sample_front_end()).unwrap();
    let usb_boot_flags = wl.usb_boot_flags();
    // bit 22 set, bits 0-15 set, bits 3/7 clear
    assert_eq!(usb_boot_flags, 0x0040_ff77);
    let otp_rows = wl.to_otp_rows();
    assert_eq!(otp_rows.len(), 75);
    let new_wl = WhiteLabelStruct::parse_otp(usb_boot_flags, &otp_rows).unwrap();
    assert!(new_wl.is_clean());
    assert_eq!(*new_wl.white_label(), wl);
}

#[test]
fn top_test_utf16() {
    let fe = FrontEnd {
        manufacturer: Some("😀piers.rocks".to_string()),
        product: Some("pico⚡otp".to_string()),
        serial_number: Some("1234abcd号".to_string()),
        ..FrontEnd::default()
    };
    let wl = record_from_front_end(&fe).unwrap();
    let usb_boot_flags = wl.usb_boot_flags();
    // bit 22 set, bits 4/5/6 set
    assert_eq!(usb_boot_flags, 0x0040_0070);
    let otp_rows = wl.to_otp_rows();
    assert_eq!(otp_rows.len(), 46);
    let new_wl = WhiteLabelStruct::parse_otp(usb_boot_flags, &otp_rows).unwrap();
    assert!(new_wl.is_clean());
    assert_eq!(*new_wl.white_label(), wl);
}

fn full_cycle(fe: &FrontEnd) {
    let wl = record_from_front_end(fe).unwrap();
    assert!(wl.is_clean());
    let rows = wl.to_otp_rows();
    let parsed = WhiteLabelStruct::parse_otp(wl.usb_boot_flags(), &rows).unwrap();
    assert!(parsed.is_clean());
    assert_eq!(*parsed.white_label(), wl);
    // back out through the front-end form and in again
    let fe_out = front_end_of_record(parsed.white_label());
    let wl_again = record_from_front_end(&fe_out).unwrap();
    assert_eq!(wl_again, wl);
}

#[test]
fn test_full_cycle_more() {
    full_cycle(&FrontEnd::default());
}

#[test]
fn just_attr() {
    // a lone attributes value gains the default 500 mA power draw
    let fe = FrontEnd { attributes: Some("0x80".to_string()), ..FrontEnd::default() };
    let wl = record_from_front_end(&fe).unwrap();
    assert_eq!(wl.attr_power(), Some(0xfa80));
    full_cycle(&fe);
    let fe_out = front_end_of_record(&wl);
    assert_eq!(fe_out.attributes, Some("0x80".to_string()));
    assert_eq!(fe_out.max_power, Some("0xfa".to_string()));
}

#[test]
fn front_end_round_trip_sample() {
    // a record written in its front-end form and read back is reproduced
    let wl = record_from_front_end(&sample_front_end()).unwrap();
    let fe_out = front_end_of_record(&wl);
    assert_eq!(fe_out.vid, Some("0x1234".to_string()));
    assert_eq!(fe_out.pid, Some("0x4678".to_string()));
    assert_eq!(fe_out.bcd, Some((1, 0, 0)));
    let wl_again = record_from_front_end(&fe_out).unwrap();
    assert_eq!(wl_again, wl);
}

#[test]
fn test_valid_vid_format() {
    let fe = FrontEnd { vid: Some("0x1234".to_string()), ..FrontEnd::default() };
    assert!(record_from_front_end(&fe).is_ok());
    let fe = FrontEnd { vid: Some("0xABCD".to_string()), ..FrontEnd::default() };
    assert!(record_from_front_end(&fe).is_ok());
}

#[test]
fn test_valid_pid_format() {
    let fe = FrontEnd { pid: Some("0x1234".to_string()), ..FrontEnd::default() };
    assert!(record_from_front_end(&fe).is_ok());
    let fe = FrontEnd { pid: Some("0xABCD".to_string()), ..FrontEnd::default() };
    assert!(record_from_front_end(&fe).is_ok());
}

#[test]
fn test_invalid_vid_format() {
    for bad in ["1234", "0x123", "0x12345", "0x12G4"] {
        let fe = FrontEnd { vid: Some(bad.to_string()), ..FrontEnd::default() };
        assert!(format_err(&record_from_front_end(&fe), 0), "vid {bad} accepted");
    }
    let fe = FrontEnd { vid: Some("0xABCD".to_string()), ..FrontEnd::default() };
    assert!(record_from_front_end(&fe).is_ok());
}

#[test]
fn test_invalid_pid_format() {
    for bad in ["abcd", "0xabc", "0xabcde", "0xabcz"] {
        let fe = FrontEnd { pid: Some(bad.to_string()), ..FrontEnd::default() };
        assert!(format_err(&record_from_front_end(&fe), 1), "pid {bad} accepted");
    }
    let fe = FrontEnd { pid: Some("0xABCD".to_string()), ..FrontEnd::default() };
    assert!(record_from_front_end(&fe).is_ok());
}

#[test]
fn test_valid_bcd() {
    for good in [(0, 0, 0), (45, 6, 7), (99, 0, 0)] {
        let fe = FrontEnd { bcd: Some(good), ..FrontEnd::default() };
        assert!(record_from_front_end(&fe).is_ok(), "bcd {good:?} rejected");
    }
}

#[test]
fn test_invalid_bcd() {
    for bad in [(100, 0, 0), (0, 10, 0), (0, 0, 10)] {
        let fe = FrontEnd { bcd: Some(bad), ..FrontEnd::default() };
        assert!(format_err(&record_from_front_end(&fe), 2), "bcd {bad:?} accepted");
    }
}

#[test]
fn test_valid_lang_id_format() {
    for good in ["0x0409", "0x0C0a"] {
        let fe = FrontEnd { lang_id: Some(good.to_string()), ..FrontEnd::default() };
        assert!(record_from_front_end(&fe).is_ok(), "lang_id {good} rejected");
    }
}

#[test]
fn test_invalid_lang_id_format() {
    for bad in ["409", "0x040", "0x04090", "0x04G9"] {
        let fe = FrontEnd { lang_id: Some(bad.to_string()), ..FrontEnd::default() };
        assert!(format_err(&record_from_front_end(&fe), 3), "lang_id {bad} accepted");
    }
}

#[test]
fn test_valid_manufacturer_string() {
    for good in ["ACME Corp", "ÃÇMÉ Çörp", "测试公司", "ACME 🚀 Corp",
        "ABCDEFGHIJKLMNOPQRSTUVWXYZ1234"]
    {
        let fe = FrontEnd { manufacturer: Some(good.to_string()), ..FrontEnd::default() };
        assert!(record_from_front_end(&fe).is_ok(), "manufacturer {good} rejected");
    }
}

#[test]
fn test_invalid_manufacturer_string() {
    let fe = FrontEnd { manufacturer: Some("A".repeat(31)), ..FrontEnd::default() };
    assert!(format_err(&record_from_front_end(&fe), 4));
}

#[test]
fn test_valid_product_string() {
    for good in ["Super Gadget", "Süpér Gädgét", "产品测试", "Gadget 🚀 Pro",
        "ABCDEFGHIJKLMNOPQRSTUVWXYZ1234"]
    {
        let fe = FrontEnd { product: Some(good.to_string()), ..FrontEnd::default() };
        assert!(record_from_front_end(&fe).is_ok(), "product {good} rejected");
    }
}

#[test]
fn test_invalid_product_string() {
    let fe = FrontEnd { product: Some("B".repeat(31)), ..FrontEnd::default() };
    assert!(format_err(&record_from_front_end(&fe), 5));
}

#[test]
fn test_valid_serial_number_string() {
    for good in ["SN12345678", "SÑ1234🚀5678", "序列号测试", "ABCDEFGHIJKLMNOPQRSTUVWXYZ1234"] {
        let fe = FrontEnd { serial_number: Some(good.to_string()), ..FrontEnd::default() };
        assert!(record_from_front_end(&fe).is_ok(), "serial {good} rejected");
    }
}

#[test]
fn test_invalid_serial_number_string() {
    let fe = FrontEnd { serial_number: Some("SN".repeat(16)), ..FrontEnd::default() };
    assert!(format_err(&record_from_front_end(&fe), 6));
}

#[test]
fn test_valid_max_power_format() {
    // the formats are accepted; the resulting power values are then held to
    // the record's own validation (a zero draw is an issue, not a format
    // error)
    let fe = FrontEnd {
        max_power: Some("0x0".to_string()),
        attributes: Some("0x80".to_string()),
        ..FrontEnd::default()
    };
    assert!(!format_err(&record_from_front_end(&fe), 7));
    let fe = FrontEnd {
        max_power: Some("0xFF".to_string()),
        attributes: Some("0x80".to_string()),
        ..FrontEnd::default()
    };
    assert!(!format_err(&record_from_front_end(&fe), 7));
}

#[test]
fn test_invalid_max_power_format() {
    for bad in ["0x123", "123"] {
        let fe = FrontEnd {
            max_power: Some(bad.to_string()),
            attributes: Some("0x80".to_string()),
            ..FrontEnd::default()
        };
        assert!(format_err(&record_from_front_end(&fe), 7), "max_power {bad} accepted");
    }
}

#[test]
fn test_bad_hex_u8() {
    let fe = FrontEnd {
        max_power: Some("0xGG".to_string()),
        attributes: Some("0x80".to_string()),
        ..FrontEnd::default()
    };
    assert!(format_err(&record_from_front_end(&fe), 7));
}

#[test]
fn test_valid_attributes_string() {
    for good in ["0x80", "0xA0", "0xC0", "0xE0"] {
        let fe = FrontEnd {
            attributes: Some(good.to_string()),
            max_power: Some("0x80".to_string()),
            ..FrontEnd::default()
        };
        assert!(record_from_front_end(&fe).is_ok(), "attributes {good} rejected");
    }
}

#[test]
fn test_invalid_attributes_string() {
    let fe = FrontEnd {
        attributes: Some("0x90".to_string()),
        max_power: Some("0x80".to_string()),
        ..FrontEnd::default()
    };
    assert!(format_err(&record_from_front_end(&fe), 7));
}

#[test]
fn test_invalid_attributes_integer_range() {
    // integer attribute values arrive written out as hex bytes
    for bad in [127u8, 225] {
        let fe = FrontEnd {
            attributes: Some(format!("{bad:#04x}")),
            max_power: Some("0x80".to_string()),
            ..FrontEnd::default()
        };
        assert!(format_err(&record_from_front_end(&fe), 7), "attributes {bad} accepted");
    }
}

#[test]
fn test_invalid_attributes_integer_bits() {
    let fe = FrontEnd {
        attributes: Some("0x81".to_string()),
        max_power: Some("0x80".to_string()),
        ..FrontEnd::default()
    };
    assert!(format_err(&record_from_front_end(&fe), 7));
}

fn set_fe_string(fe: &mut FrontEnd, field: usize, value: &str) {
    match field {
        8 => fe.volume_label = Some(value.to_string()),
        9 => fe.scsi_vendor = Some(value.to_string()),
        10 => fe.scsi_product = Some(value.to_string()),
        11 => fe.scsi_version = Some(value.to_string()),
        12 => fe.redirect_url = Some(value.to_string()),
        13 => fe.redirect_name = Some(value.to_string()),
        14 => fe.uf2_model = Some(value.to_string()),
        _ => fe.uf2_board_id = Some(value.to_string()),
    }
}

fn check_ascii_field(field: usize, max_len: usize) {
    // accepted formats: the maximum length, a short value, and (as a
    // format, though the record then flags it empty) the empty string
    for good in ["A".repeat(max_len), "abc".to_string(), String::new()] {
        let mut fe = FrontEnd::default();
        set_fe_string(&mut fe, field, &good);
        assert!(
            !format_err(&record_from_front_end(&fe), field),
            "field {field} value {good:?} rejected as a format"
        );
    }
    // rejected: one character over the maximum, and non-ASCII text
    for bad in [("A".repeat(max_len + 1)), "🚀".to_string(), "测试".to_string()] {
        let mut fe = FrontEnd::default();
        set_fe_string(&mut fe, field, &bad);
        assert!(
            format_err(&record_from_front_end(&fe), field),
            "field {field} value {bad:?} accepted"
        );
    }
}

#[test]
fn tests_test_scsi_product() {
    check_ascii_field(10, 16);
}

#[test]
fn tests_test_scsi_vendor() {
    check_ascii_field(9, 8);
}

#[test]
fn tests_test_scsi_version() {
    check_ascii_field(11, 4);
}

#[test]
fn test_volume_board_id() {
    check_ascii_field(15, 127);
}

#[test]
fn tests_test_volume_label() {
    check_ascii_field(8, 11);
}

#[test]
fn test_volume_model() {
    check_ascii_field(14, 127);
}

#[test]
fn test_volume_redirect_name() {
    check_ascii_field(13, 127);
}

#[test]
fn test_volume_redirect_url() {
    check_ascii_field(12, 127);
}

#[test]
fn empty_string_is_a_validation_issue() {
    // an empty string is a well-formed front-end value, but the record
    // validation flags it, so the conversion reports issues rather than a
    // format error
    let fe = FrontEnd { volume_label: Some(String::new()), ..FrontEnd::default() };
    let r = record_from_front_end(&fe);
    assert!(matches!(r, Err(Error::InvalidWhiteLabelData(_))));
}

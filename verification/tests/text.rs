use ptouch_core::error::{PtouchError, UsbFault};
use ptouch_core::text::{
    is_hex_digit, is_white, push_decimal, push_hex_byte, push_hex_code, read_number, split_text,
    text_lines, to_upper, trim, uppercase_starts_with,
};

fn decimal(n: u64) -> String {
    let mut out = String::from("n=");
    push_decimal(&mut out, n);
    out
}

#[test]
fn numbers_are_rendered_as_usual() {
    for n in [0, 7, 10, 99, 100, 65535, 4_294_967_296, u64::MAX] {
        assert_eq!(decimal(n), format!("n={}", n));
    }
    for code in [0, 9, 10, 15, 16, 255, 0xe000_02c0, u32::MAX] {
        let mut out = String::new();
        push_hex_code(&mut out, code);
        assert_eq!(out, format!("{:#x}", code));
    }
    for byte in 0..=255u8 {
        let mut out = String::new();
        push_hex_byte(&mut out, byte);
        assert_eq!(out, format!("{:#04x}", byte));
    }
}

#[test]
fn numbers_survive_the_round_trip() {
    for n in [0u32, 1, 12, 64, 128, 180, 255] {
        let mut out = String::new();
        push_decimal(&mut out, n as u64);
        assert_eq!(read_number(&out, 255), Some(n));
    }
}

#[test]
fn numbers_are_read_like_unsigned_integers() {
    for text in [
        "0", "7", "255", "256", "+12", "+", "-", "-1", "", " 12", "12 ", "0012", "1e2", "65536",
        "99999999999999999999999999", "٣", "1_000", "++1",
    ] {
        assert_eq!(
            read_number(text, 255),
            text.parse::<u8>().ok().map(u32::from),
            "{:?}",
            text
        );
        assert_eq!(
            read_number(text, 65535),
            text.parse::<u16>().ok().map(u32::from),
            "{:?}",
            text
        );
    }
}

#[test]
fn characters_are_classified_like_unicode() {
    for c in (0..=0x10ffff).filter_map(char::from_u32) {
        assert_eq!(is_white(c), c.is_whitespace(), "{:?}", c);
        assert_eq!(is_hex_digit(c), c.is_ascii_hexdigit(), "{:?}", c);
        assert_eq!(to_upper(c), c.to_ascii_uppercase(), "{:?}", c);
    }
}

#[test]
fn texts_are_cut_like_strings() {
    for text in [
        "", "a", "a\n", "a\r\n", "a\r", "\n", "\n\n", "\r\n\r\n", "a\tb\nc\td", "a\n\nb", "a\rb\n",
        "é\nü\r\n",
    ] {
        let lines: Vec<String> = text.lines().map(String::from).collect();
        assert_eq!(text_lines(text), lines, "{:?}", text);
        let parts: Vec<String> = text.split('\t').map(String::from).collect();
        assert_eq!(split_text(text, '\t'), parts, "{:?}", text);
        assert_eq!(trim(text), text.trim(), "{:?}", text);
    }
    assert_eq!(trim(" \t a b\u{a0}\n"), "a b");
}

#[test]
fn prefixes_ignore_the_case_of_the_text() {
    assert!(uppercase_starts_with("pt-p300bt6427", "PT-P300BT"));
    assert!(uppercase_starts_with("PT-P300BT", "PT-P300BT"));
    assert!(!uppercase_starts_with("PT-P300B", "PT-P300BT"));
    assert!(!uppercase_starts_with("PT-P710BT", "PT-P300BT"));
    assert!(!uppercase_starts_with("PT-P300BT", "pt-p300bt"));
}

#[test]
fn usb_faults_are_called_as_the_usb_stack_calls_them() {
    let pairs = [
        (UsbFault::Io, rusb::Error::Io),
        (UsbFault::InvalidParam, rusb::Error::InvalidParam),
        (UsbFault::Access, rusb::Error::Access),
        (UsbFault::NoDevice, rusb::Error::NoDevice),
        (UsbFault::NotFound, rusb::Error::NotFound),
        (UsbFault::Busy, rusb::Error::Busy),
        (UsbFault::Timeout, rusb::Error::Timeout),
        (UsbFault::Overflow, rusb::Error::Overflow),
        (UsbFault::Pipe, rusb::Error::Pipe),
        (UsbFault::Interrupted, rusb::Error::Interrupted),
        (UsbFault::NoMem, rusb::Error::NoMem),
        (UsbFault::NotSupported, rusb::Error::NotSupported),
        (UsbFault::BadDescriptor, rusb::Error::BadDescriptor),
        (UsbFault::Other, rusb::Error::Other),
    ];
    for (fault, error) in pairs {
        assert_eq!(fault.message(), error.to_string());
    }
}

#[test]
fn every_error_has_its_sentence() {
    let cases = [
        (PtouchError::DeviceNotFound, "No supported P-Touch printer found"),
        (PtouchError::PLiteMode("PT-P700".into()), "Printer is in PLite mode: PT-P700"),
        (
            PtouchError::UnsupportedRaster("PT-1".into()),
            "Raster printing not supported: PT-1",
        ),
        (
            PtouchError::UnsupportedQuality("PT-2".into()),
            "Print quality not supported: PT-2",
        ),
        (
            PtouchError::UnsupportedOperation("cut"),
            "Operation not supported: cut",
        ),
        (PtouchError::NotInitialized, "Printer not initialized"),
        (PtouchError::UnknownTapeWidth(9), "Unknown tape width: 9 mm"),
        (PtouchError::SendFailed("x".into()), "Send failed: x"),
        (PtouchError::StatusError("y".into()), "Printer status error: y"),
        (PtouchError::Timeout, "Operation timed out"),
        (PtouchError::UsbError(UsbFault::Pipe), "USB error: Pipe error"),
        (PtouchError::Bluetooth("z".into()), "Bluetooth error: z"),
    ];
    for (error, text) in cases {
        assert_eq!(error.message(), text);
    }
}

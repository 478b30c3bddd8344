use device_supervisor::classify::{classify_ports, display_string, get_board_name, is_arduino_board};
use device_supervisor::device::{RawPort, UsbDevice};
use device_supervisor::text::{contains_ci, contains_substr, trim_str};

fn dev(port: &str, vid: u16, pid: u16, serial: Option<&str>, product: Option<&str>) -> UsbDevice {
    UsbDevice {
        port: port.to_string(),
        vid,
        pid,
        serial_number: serial.map(|s| s.to_string()),
        product: product.map(|s| s.to_string()),
        status: "connected".to_string(),
        board_name: String::new(),
    }
}

#[test]
fn maker_vendor_is_supported() {
    let d = dev("COM3", 0x2341, 0x0043, None, None);
    assert!(is_arduino_board(&d));
}

#[test]
fn bridge_vendor_with_family_product_is_supported() {
    let d = dev("COM4", 0x1A86, 0x7523, None, Some("Arduino compatible"));
    assert!(is_arduino_board(&d));
}

#[test]
fn bridge_vendor_matching_is_case_insensitive() {
    let d = dev("COM4", 0x0403, 0x6001, Some("ARDUINO-0042"), None);
    assert!(is_arduino_board(&d));
    let d2 = dev("COM4", 0x10C4, 0xEA60, None, Some("arDuInO nano"));
    assert!(is_arduino_board(&d2));
}

#[test]
fn bridge_vendor_without_family_text_is_rejected() {
    let d = dev("COM5", 0x1A86, 0x7523, Some("CH340"), Some("USB serial"));
    assert!(!is_arduino_board(&d));
    let d2 = dev("COM5", 0x10C4, 0xEA60, None, None);
    assert!(!is_arduino_board(&d2));
}

#[test]
fn unknown_vendor_is_rejected_even_with_family_text() {
    let d = dev("COM6", 0x1234, 0x0001, Some("arduino"), Some("arduino"));
    assert!(!is_arduino_board(&d));
}

#[test]
fn board_name_lookup_table() {
    assert_eq!(get_board_name(&dev("p", 0x2341, 0x0043, None, None)), "Arduino Uno");
    assert_eq!(get_board_name(&dev("p", 0x2341, 0x0010, None, None)), "Arduino Mega 2560");
    assert_eq!(get_board_name(&dev("p", 0x2341, 0x8036, None, None)), "Arduino Leonardo");
    assert_eq!(get_board_name(&dev("p", 0x2341, 0x8037, None, None)), "Arduino Micro");
}

#[test]
fn board_name_falls_back_to_product_then_placeholder() {
    assert_eq!(
        get_board_name(&dev("p", 0x2341, 0x9999, None, Some("Custom Board"))),
        "Custom Board"
    );
    assert_eq!(get_board_name(&dev("p", 0x2341, 0x9999, None, None)), "Unknown Arduino");
}

#[test]
fn classify_keeps_only_supported_usb_ports() {
    let ports = vec![
        RawPort {
            port_name: "COM3".to_string(),
            usb: true,
            vid: 0x2341,
            pid: 0x0043,
            serial_number: Some("857".to_string()),
            product: Some("Arduino Uno".to_string()),
        },
        RawPort {
            port_name: "/dev/ttyS0".to_string(),
            usb: false,
            vid: 0,
            pid: 0,
            serial_number: None,
            product: None,
        },
        RawPort {
            port_name: "COM7".to_string(),
            usb: true,
            vid: 0x1A86,
            pid: 0x7523,
            serial_number: None,
            product: Some("USB serial".to_string()),
        },
    ];
    let devs = classify_ports(&ports);
    assert_eq!(devs.len(), 1);
    assert_eq!(devs[0].port, "COM3");
    assert_eq!(devs[0].board_name, "Arduino Uno");
    assert_eq!(devs[0].status, "connected");
    assert_eq!(devs[0].vid, 0x2341);
    assert_eq!(devs[0].pid, 0x0043);
}

#[test]
fn display_string_combines_label_and_port() {
    let mut d = dev("COM3", 0x2341, 0x0043, None, None);
    d.board_name = "Arduino Uno".to_string();
    assert_eq!(display_string(&d), "Arduino Uno (COM3)");
}

#[test]
fn substring_search_exact() {
    assert!(contains_substr("3 cycles completed", "cycles completed"));
    assert!(contains_substr("cycles completed", "cycles completed"));
    assert!(!contains_substr("cycles complete", "cycles completed"));
    assert!(!contains_substr("", "x"));
    assert!(contains_substr("anything", ""));
}

#[test]
fn substring_search_ignores_ascii_case() {
    assert!(contains_ci("My ARDUINO board", "arduino"));
    assert!(contains_ci("arduino", "ARDUINO"));
    assert!(!contains_ci("ardu-ino", "arduino"));
}

#[test]
fn trim_removes_line_whitespace() {
    assert_eq!(trim_str("  x \r\n"), "x");
    assert_eq!(trim_str("x"), "x");
    assert_eq!(trim_str("\t\r\n "), "");
    assert_eq!(trim_str(""), "");
    assert_eq!(trim_str(" a b "), "a b");
}

use facecam::v4l2::{parse_querycap, parse_querycap_in_order, parse_queryctrl, parse_queryctrl_in_order, read_fixed_string};

#[test]
fn fixed_strings() {
    assert_eq!(read_fixed_string(b"uvcvideo\0\0\0garbage"), "uvcvideo");
    assert_eq!(read_fixed_string(b"full"), "full");
    assert_eq!(read_fixed_string(b"\0abc"), "");
    assert_eq!(read_fixed_string(&[b'a', 0xFF, b'b', 0]), "a\u{FFFD}b");
}

fn querycap_bytes(caps: u32, device_caps: u32) -> Vec<u8> {
    let mut d = vec![0u8; 104];
    d[..8].copy_from_slice(b"uvcvideo");
    d[16..30].copy_from_slice(b"Elgato Facecam");
    d[48..60].copy_from_slice(b"usb-0000:10-");
    d[80..84].copy_from_slice(&0x0006_1100u32.to_ne_bytes());
    d[84..88].copy_from_slice(&caps.to_ne_bytes());
    d[88..92].copy_from_slice(&device_caps.to_ne_bytes());
    d
}

#[test]
fn querycap_parsing() {
    assert!(parse_querycap(&[0u8; 103]).is_none());
    let c = parse_querycap(&querycap_bytes(0x8400_0001, 0x0400_0001)).unwrap();
    assert_eq!(c.driver, "uvcvideo");
    assert_eq!(c.card, "Elgato Facecam");
    assert_eq!(c.bus_info, "usb-0000:10-");
    assert_eq!(c.version, 0x0006_1100);
    assert_eq!(c.version_text, "6.17.0");
    assert_eq!(c.effective_caps, 0x0400_0001);
    assert!(c.has_capture && !c.has_output && c.has_streaming && !c.has_readwrite);
    // Without the device-caps bit, the driver-wide set applies.
    let c = parse_querycap(&querycap_bytes(0x0100_0003, 0x0400_0001)).unwrap();
    assert_eq!(c.effective_caps, 0x0100_0003);
    assert!(c.has_capture && c.has_output && !c.has_streaming && c.has_readwrite);
}

fn queryctrl_bytes(ty: u32, min: i32, max: i32, step: i32) -> Vec<u8> {
    let mut d = vec![0u8; 68];
    d[0..4].copy_from_slice(&0x0098_0900u32.to_ne_bytes());
    d[4..8].copy_from_slice(&ty.to_ne_bytes());
    d[8..18].copy_from_slice(b"Brightness");
    d[40..44].copy_from_slice(&min.to_ne_bytes());
    d[44..48].copy_from_slice(&max.to_ne_bytes());
    d[48..52].copy_from_slice(&step.to_ne_bytes());
    d[52..56].copy_from_slice(&128i32.to_ne_bytes());
    d[56..60].copy_from_slice(&0x10u32.to_ne_bytes());
    d
}

#[test]
fn queryctrl_parsing() {
    assert!(parse_queryctrl(&[0u8; 67]).is_none());
    let c = parse_queryctrl(&queryctrl_bytes(1, 0, 255, 1)).unwrap();
    assert_eq!(c.id, 0x0098_0900);
    assert_eq!(c.kind_name, "integer");
    assert_eq!(c.name, "Brightness");
    assert_eq!((c.minimum, c.maximum, c.step, c.default, c.flags), (0, 255, 1, 128, 0x10));
    assert_eq!(c.steps, Some(255));
    assert!(!c.oversized_menu);
    let c = parse_queryctrl(&queryctrl_bytes(3, 0, 5000, 0)).unwrap();
    assert_eq!(c.kind_name, "menu");
    assert_eq!(c.steps, None);
    assert!(c.oversized_menu);
    // Mixed-sign menu bounds count as an empty span.
    let c = parse_queryctrl(&queryctrl_bytes(3, -5000, 5000, 1)).unwrap();
    assert!(!c.oversized_menu);
    assert_eq!(c.steps, Some(10000));
    let c = parse_queryctrl(&queryctrl_bytes(3, -5000, -1, 1)).unwrap();
    assert!(c.oversized_menu);
    let c = parse_queryctrl(&queryctrl_bytes(42, 10, 0, 1)).unwrap();
    assert_eq!(c.kind_name, "unknown");
    assert_eq!(c.steps, None);
    assert_eq!(c.minimum, 10);
}

#[test]
fn querycap_in_either_byte_order() {
    let mut d = vec![0u8; 104];
    d[80..84].copy_from_slice(&[0x00, 0x11, 0x06, 0x00]);
    d[84..88].copy_from_slice(&[0x01, 0x00, 0x00, 0x84]);
    d[88..92].copy_from_slice(&[0x01, 0x00, 0x00, 0x04]);
    let le = parse_querycap_in_order(&d, true).unwrap();
    assert_eq!(le.version, 0x0006_1100);
    assert_eq!(le.version_text, "6.17.0");
    assert_eq!(le.capabilities, 0x8400_0001);
    assert_eq!(le.effective_caps, 0x0400_0001);
    let be = parse_querycap_in_order(&d, false).unwrap();
    assert_eq!(be.version, 0x0011_0600);
    assert_eq!(be.version_text, "17.6.0");
    assert_eq!(be.capabilities, 0x0100_0084);
    assert_eq!(be.effective_caps, 0x0100_0084);
    assert!(!be.has_capture && !be.has_output && !be.has_streaming && be.has_readwrite);
    assert!(parse_querycap_in_order(&d[..103], false).is_none());
}

#[test]
fn queryctrl_in_either_byte_order() {
    let mut d = vec![0u8; 68];
    d[4..8].copy_from_slice(&[3, 0, 0, 0]);
    d[40..44].copy_from_slice(&[0xFF, 0xFF, 0xFF, 0xFF]);
    d[44..48].copy_from_slice(&[0xE8, 0x03, 0x00, 0x00]);
    d[48..52].copy_from_slice(&[0, 0, 0, 2]);
    let le = parse_queryctrl_in_order(&d, true).unwrap();
    assert_eq!((le.type_code, le.minimum, le.maximum, le.step), (3, -1, 1000, 0x0200_0000));
    assert_eq!(le.kind_name, "menu");
    assert_eq!(le.steps, Some(0));
    assert!(!le.oversized_menu);
    let be = parse_queryctrl_in_order(&d, false).unwrap();
    assert_eq!((be.type_code, be.minimum, be.maximum, be.step), (0x0300_0000, -1, -402_456_576, 2));
    assert_eq!(be.kind_name, "unknown");
    assert_eq!(be.steps, None);
    assert!(parse_queryctrl_in_order(&d[..67], true).is_none());
}

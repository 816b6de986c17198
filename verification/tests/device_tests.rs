use facecam::device::{DeviceFingerprint, ElgatoProduct, FirmwareVersion, UsbSpeed, ELGATO_VID};

#[test]
fn from_pid_known_products() {
    assert_eq!(ElgatoProduct::from_pid(0x0078), ElgatoProduct::Facecam);
    assert_eq!(ElgatoProduct::from_pid(0x0077), ElgatoProduct::FacecamUsb2Fallback);
    assert_eq!(ElgatoProduct::from_pid(0x0079), ElgatoProduct::FacecamPro);
    assert_eq!(ElgatoProduct::from_pid(0x0093), ElgatoProduct::FacecamMk2);
    assert_eq!(ElgatoProduct::from_pid(0x0094), ElgatoProduct::FacecamMk2Usb2);
    assert_eq!(ElgatoProduct::from_pid(0x0066), ElgatoProduct::CamLink4K);
    assert_eq!(ElgatoProduct::from_pid(0x1234), ElgatoProduct::Unknown(0x1234));
}

#[test]
fn pid_round_trips_for_every_id() {
    for pid in 0..=u16::MAX {
        assert_eq!(ElgatoProduct::from_pid(pid).pid(), pid);
    }
}

#[test]
fn product_round_trips_except_unknown_with_known_id() {
    let products = [
        ElgatoProduct::Facecam,
        ElgatoProduct::FacecamUsb2Fallback,
        ElgatoProduct::FacecamPro,
        ElgatoProduct::FacecamMk2,
        ElgatoProduct::FacecamMk2Usb2,
        ElgatoProduct::CamLink4K,
        ElgatoProduct::Unknown(0x4242),
    ];
    for p in products {
        assert_eq!(ElgatoProduct::from_pid(p.pid()), p);
    }
    // An unknown product that carries a known ID is not recovered.
    assert_eq!(ElgatoProduct::from_pid(ElgatoProduct::Unknown(0x0078).pid()), ElgatoProduct::Facecam);
}

#[test]
fn names_and_flags() {
    assert_eq!(ElgatoProduct::Facecam.name(), "Elgato Facecam");
    assert_eq!(
        ElgatoProduct::FacecamUsb2Fallback.name(),
        "Elgato Facecam (USB2 FALLBACK — NOT FUNCTIONAL)"
    );
    assert_eq!(ElgatoProduct::Unknown(7).name(), "Unknown Elgato Device");
    assert!(ElgatoProduct::Facecam.is_facecam_original());
    assert!(!ElgatoProduct::FacecamPro.is_facecam_original());
    assert!(ElgatoProduct::FacecamUsb2Fallback.is_usb2_fallback());
    assert!(!ElgatoProduct::Facecam.is_usb2_fallback());
    assert_eq!(ELGATO_VID, 0x0fd9);
}

#[test]
fn product_display_string() {
    assert_eq!(ElgatoProduct::Facecam.to_display_string(), "Elgato Facecam (PID 0x0078)");
    assert_eq!(ElgatoProduct::Unknown(0xabcd).to_display_string(), "Unknown Elgato Device (PID 0xabcd)");
}

#[test]
fn firmware_from_bcd() {
    let v = FirmwareVersion::from_bcd(0x0409);
    assert_eq!(v, FirmwareVersion { major: 4, minor: 9 });
    assert_eq!(v.to_display_string(), "4.09");
    let v = FirmwareVersion::from_bcd(0x0a1f);
    assert_eq!((v.major, v.minor), (10, 31));
    assert_eq!(v.to_display_string(), "10.31");
}

#[test]
fn bcd_round_trips() {
    for bcd in 0..=u16::MAX {
        let v = FirmwareVersion::from_bcd(bcd);
        assert_eq!(v.major as u16 * 256 + v.minor as u16, bcd);
    }
}

#[test]
fn firmware_feature_gates() {
    assert!(FirmwareVersion { major: 4, minor: 0 }.has_mjpeg());
    assert!(!FirmwareVersion { major: 3, minor: 99 }.has_mjpeg());
    assert!(FirmwareVersion { major: 3, minor: 0 }.has_transfer_mode_selection());
    assert!(!FirmwareVersion { major: 2, minor: 52 }.has_transfer_mode_selection());
    // MJPEG support implies transfer mode selection.
    for major in 0..=255u8 {
        let v = FirmwareVersion { major, minor: 0 };
        assert!(!v.has_mjpeg() || v.has_transfer_mode_selection());
    }
    assert!(FirmwareVersion { major: 3, minor: 99 }.is_below(&FirmwareVersion { major: 4, minor: 0 }));
    assert!(!FirmwareVersion { major: 4, minor: 0 }.is_below(&FirmwareVersion { major: 4, minor: 0 }));
}

#[test]
fn usb_speed_labels() {
    assert_eq!(UsbSpeed::Super.label(), "SuperSpeed (5 Gbps)");
    assert_eq!(UsbSpeed::High.label(), "High (480 Mbps)");
    assert_eq!(UsbSpeed::Unknown.label(), "Unknown");
}

#[test]
fn fingerprint_report() {
    let f = DeviceFingerprint {
        product: ElgatoProduct::Facecam,
        firmware: FirmwareVersion { major: 4, minor: 9 },
        serial: "ABC123".to_string(),
        usb_bus: 10,
        usb_address: 3,
        usb_port_numbers: vec![2, 1],
        usb_speed: UsbSpeed::Super,
        v4l2_device: Some("/dev/video0".to_string()),
        v4l2_sysfs_path: None,
        driver_version: None,
        card_name: None,
    };
    assert_eq!(
        f.to_display_string(),
        "Device:     Elgato Facecam (PID 0x0078)\n\
         Firmware:   4.09\n\
         Serial:     ABC123\n\
         USB:        bus 10 addr 3 (SuperSpeed (5 Gbps))\n\
         Port Path:  [2, 1]\n\
         V4L2:       /dev/video0\n"
    );
    let g = DeviceFingerprint { usb_port_numbers: vec![], v4l2_device: None, card_name: Some("Cam".to_string()), ..f };
    assert!(g.to_display_string().contains("Port Path:  []\n"));
    assert!(g.to_display_string().ends_with("Card:       Cam\n"));
}

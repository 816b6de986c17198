use facecam::device::{ElgatoProduct, FirmwareVersion, UsbSpeed};
use facecam::usb::{enumerate_elgato_devices, firmware_bcd, sysfs_entry_is_facecam, sysfs_entry_matches, usb_topology, v4l2_node_for_entry, first_v4l2_node, reads_serial, UsbDeviceRecord};

fn record(vendor_id: u16, product_id: u16, serial: Option<&str>) -> UsbDeviceRecord {
    UsbDeviceRecord {
        vendor_id,
        product_id,
        version_major: 4,
        version_minor: 0,
        version_sub_minor: 9,
        serial: serial.map(|s| s.to_string()),
        bus: 10,
        address: 2,
        port_numbers: vec![2],
        speed: UsbSpeed::Super,
    }
}

#[test]
fn bcd_from_version_digits() {
    assert_eq!(firmware_bcd(4, 0, 9), 0x0409);
    assert_eq!(FirmwareVersion::from_bcd(firmware_bcd(4, 0, 9)), FirmwareVersion { major: 4, minor: 9 });
    assert_eq!(firmware_bcd(2, 5, 2), 0x0234);
}

#[test]
fn enumeration_keeps_elgato_devices() {
    let devices = enumerate_elgato_devices(vec![
        record(0x046d, 0x0825, Some("logi")),
        record(0x0fd9, 0x0078, Some("FC1")),
        record(0x0fd9, 0x0077, Some("never read")),
        record(0x0fd9, 0x0079, None),
    ]);
    assert_eq!(devices.len(), 3);
    assert_eq!(devices[0].product, ElgatoProduct::Facecam);
    assert_eq!(devices[0].serial, "FC1");
    assert_eq!(devices[0].firmware, FirmwareVersion { major: 4, minor: 9 });
    assert_eq!(devices[0].usb_port_numbers, vec![2]);
    assert_eq!(devices[1].product, ElgatoProduct::FacecamUsb2Fallback);
    assert_eq!(devices[1].serial, "");
    assert_eq!(devices[2].serial, "");
    assert!(devices[2].v4l2_device.is_none());
}

#[test]
fn sysfs_matching() {
    assert!(sysfs_entry_matches("10\n", " 2", 10, 2));
    assert!(!sysfs_entry_matches("10\n", "3", 10, 2));
    // Unparseable texts count as 0.
    assert!(sysfs_entry_matches("x", "", 0, 0));
    assert!(sysfs_entry_is_facecam("0fd9\n", "0078\n"));
    assert!(!sysfs_entry_is_facecam("0fd9", "0077"));
    assert!(!sysfs_entry_is_facecam("0FD9", "0078"));
}

#[test]
fn v4l2_nodes() {
    assert_eq!(v4l2_node_for_entry("video0", Some("0\n")), Some("/dev/video0".to_string()));
    assert_eq!(v4l2_node_for_entry("video1", Some("1\n")), None);
    assert_eq!(v4l2_node_for_entry("video2", Some("junk")), None);
    assert_eq!(v4l2_node_for_entry("video3", None), Some("/dev/video3".to_string()));
    assert_eq!(v4l2_node_for_entry("media0", None), None);
}

#[test]
fn topology_fields() {
    let t = usb_topology(
        "/sys/bus/usb/devices/10-2",
        Some("10\n"),
        Some("2\n"),
        Some("5000\n"),
        Some(" 3.20\n"),
        Some("0\n"),
        Some("1\n"),
        Some("Elgato\n"),
        None,
        Some("0409\n"),
        Some("bogus"),
    );
    assert_eq!(t.sysfs_path, "/sys/bus/usb/devices/10-2");
    assert_eq!(t.busnum, Some(10));
    assert_eq!(t.devnum, Some(2));
    assert_eq!(t.speed.as_deref(), Some("5000"));
    assert_eq!(t.version.as_deref(), Some("3.20"));
    assert_eq!(t.maxchild, Some(0));
    assert_eq!(t.authorized, Some(1));
    assert_eq!(t.manufacturer.as_deref(), Some("Elgato"));
    assert_eq!(t.product_name, None);
    assert_eq!(t.bcd_device.as_deref(), Some("0409"));
    assert_eq!(t.configuration.as_deref(), Some("bogus"));
    let t = usb_topology("/s", Some("300"), None, None, None, None, None, None, None, None, None);
    assert_eq!(t.busnum, None);
}

#[test]
fn serial_is_read_only_for_openable_elgato_devices() {
    assert!(reads_serial(0x0fd9, 0x0078));
    assert!(reads_serial(0x0fd9, 0x1234));
    assert!(!reads_serial(0x0fd9, 0x0077));
    assert!(!reads_serial(0x046d, 0x0078));
}

#[test]
fn first_capture_node_in_listing_order() {
    let listing = vec![
        ("subsystem".to_string(), None),
        ("video3".to_string(), Some("1\n".to_string())),
        ("video2".to_string(), Some(" 0\n".to_string())),
        ("video7".to_string(), None),
    ];
    assert_eq!(first_v4l2_node(&listing), Some("/dev/video2".to_string()));
    assert_eq!(first_v4l2_node(&listing[..2]), None);
    assert_eq!(first_v4l2_node(&listing[3..]), Some("/dev/video7".to_string()));
    assert_eq!(first_v4l2_node(&[]), None);
}

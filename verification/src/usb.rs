//! USB enumeration and sysfs decisions: which devices are Elgato cameras,
//! how their firmware version is read, which sysfs entries belong to the
//! Facecam, which V4L2 node is its capture node, and the topology report.
use vstd::prelude::*;
use vstd::string::*;
use crate::device::{
    DeviceFingerprint, ElgatoProduct, FirmwareVersion, UsbSpeed, ELGATO_VID, product_for_pid,
};
use crate::text::{hex4, parse_u32, parse_u8, parse_unsigned, push_hex4, str_equal, starts_with, trim, trimmed};

verus! {

/// The bcdDevice value the firmware version is read from, rebuilt from the
/// major, minor and sub-minor digits USB enumeration reports: the major
/// digit in the high byte, `minor * 10 + sub_minor` in the low bits
/// (bcdDevice 0x0409 reads as 4.0.9 and gives 4.09).
pub open spec fn version_bcd(major: u8, minor: u8, sub_minor: u8) -> u16 {
    ((major as u16) << 8u16) | ((minor * 10 + sub_minor) as u16)
}

/// The bcdDevice value from the reported version digits.
pub fn firmware_bcd(major: u8, minor: u8, sub_minor: u8) -> (r: u16)
    ensures
        r == version_bcd(major, minor, sub_minor),
{
    ((major as u16) << 8) | ((minor as u16) * 10 + sub_minor as u16)
}

/// What USB enumeration reports of one device.
#[derive(Debug, Clone)]
pub struct UsbDeviceRecord {
    pub vendor_id: u16,
    pub product_id: u16,
    pub version_major: u8,
    pub version_minor: u8,
    pub version_sub_minor: u8,
    /// The serial number string, when it was read.
    pub serial: Option<String>,
    pub bus: u8,
    pub address: u8,
    pub port_numbers: Vec<u8>,
    pub speed: UsbSpeed,
}

/// The fingerprint of an Elgato device. The serial number is left empty
/// for a Facecam in USB 2.0 fallback mode (its descriptors are not read:
/// opening it hangs) and when it could not be read.
pub open spec fn fingerprint_of(r: UsbDeviceRecord, f: DeviceFingerprint) -> bool {
    &&& f.product == product_for_pid(r.product_id)
    &&& f.firmware.major == version_bcd(r.version_major, r.version_minor, r.version_sub_minor) / 256
    &&& f.firmware.minor == version_bcd(r.version_major, r.version_minor, r.version_sub_minor) % 256
    &&& f.serial@ == (if f.product == ElgatoProduct::FacecamUsb2Fallback {
        Seq::empty()
    } else {
        match r.serial {
            Some(s) => s@,
            None => Seq::empty(),
        }
    })
    &&& f.usb_bus == r.bus
    &&& f.usb_address == r.address
    &&& f.usb_port_numbers@ == r.port_numbers@
    &&& f.usb_speed == r.speed
    &&& f.v4l2_device is None
    &&& f.v4l2_sysfs_path is None
    &&& f.driver_version is None
    &&& f.card_name is None
}

/// The fingerprint of one enumerated Elgato device.
pub fn fingerprint(record: UsbDeviceRecord) -> (f: DeviceFingerprint)
    ensures
        fingerprint_of(record, f),
{
    let product = ElgatoProduct::from_pid(record.product_id);
    let bcd = firmware_bcd(record.version_major, record.version_minor, record.version_sub_minor);
    let firmware = FirmwareVersion::from_bcd(bcd);
    // USB2 fallback devices hang on open(): their serial is never read.
    let serial = if product.is_usb2_fallback() {
        String::new()
    } else {
        match record.serial {
            Some(s) => s,
            None => String::new(),
        }
    };
    DeviceFingerprint {
        product,
        firmware,
        serial,
        usb_bus: record.bus,
        usb_address: record.address,
        usb_port_numbers: record.port_numbers,
        usb_speed: record.speed,
        v4l2_device: None,
        v4l2_sysfs_path: None,
        driver_version: None,
        card_name: None,
    }
}

/// Whether enumeration reads a device's serial number: only for Elgato
/// devices, and not for a Facecam in USB 2.0 fallback mode (opening it
/// hangs).
pub open spec fn should_read_serial(vendor_id: u16, product_id: u16) -> bool {
    vendor_id == ELGATO_VID && product_for_pid(product_id) != ElgatoProduct::FacecamUsb2Fallback
}

/// Whether to open a device and read its serial number, by its vendor and
/// product IDs.
pub fn reads_serial(vendor_id: u16, product_id: u16) -> (r: bool)
    ensures
        r == should_read_serial(vendor_id, product_id),
{
    vendor_id == ELGATO_VID && !ElgatoProduct::from_pid(product_id).is_usb2_fallback()
}

/// The Elgato devices among the enumerated ones, in enumeration order.
pub open spec fn elgato_records(records: Seq<UsbDeviceRecord>) -> Seq<UsbDeviceRecord> {
    records.filter(|r: UsbDeviceRecord| r.vendor_id == ELGATO_VID)
}

/// Discover Elgato cameras among the enumerated USB devices: one
/// fingerprint per device with the Elgato vendor ID, in order.
pub fn enumerate_elgato_devices(records: Vec<UsbDeviceRecord>) -> (r: Vec<DeviceFingerprint>)
    ensures
        r@.len() == elgato_records(records@).len(),
        forall|i: int| 0 <= i < r@.len() ==> fingerprint_of(elgato_records(records@)[i], #[trigger] r@[i]),
{
    let ghost all = records@;
    let ghost pred = |r: UsbDeviceRecord| r.vendor_id == ELGATO_VID;
    let mut devices: Vec<DeviceFingerprint> = Vec::new();
    let mut rest = records;
    let ghost mut seen: Seq<UsbDeviceRecord> = Seq::empty();
    while rest.len() > 0
        invariant
            pred == (|r: UsbDeviceRecord| r.vendor_id == ELGATO_VID),
            seen + rest@ == all,
            devices@.len() == seen.filter(pred).len(),
            forall|i: int| 0 <= i < devices@.len() ==> fingerprint_of(seen.filter(pred)[i], #[trigger] devices@[i]),
        decreases rest.len(),
    {
        let ghost before_rest = rest@;
        let record = rest.remove(0);
        proof {
            seen.lemma_filter_push(record, pred);
            assert(seen.push(record) + rest@ =~= seen + before_rest);
            seen = seen.push(record);
        }
        if record.vendor_id == ELGATO_VID {
            let f = fingerprint(record);
            devices.push(f);
        }
    }
    proof {
        assert(seen =~= all);
    }
    devices
}

/// Whether the `busnum` and `devnum` sysfs texts name the given bus and
/// address (a text that does not parse as a byte counts as 0).
pub open spec fn sysfs_bus_address_match(busnum: Seq<char>, devnum: Seq<char>, bus: u8, addr: u8) -> bool {
    let b = match parse_unsigned(trimmed(busnum), u8::MAX as int) { Some(v) => v, None => 0 };
    let d = match parse_unsigned(trimmed(devnum), u8::MAX as int) { Some(v) => v, None => 0 };
    b == bus && d == addr
}

/// Whether a sysfs USB device entry, by its `busnum` and `devnum` texts,
/// is the device at the given bus and address.
pub fn sysfs_entry_matches(busnum: &str, devnum: &str, bus: u8, addr: u8) -> (r: bool)
    ensures
        r == sysfs_bus_address_match(busnum@, devnum@, bus, addr),
{
    let b = match parse_u8(trim(busnum)) {
        Some(v) => v,
        None => 0,
    };
    let d = match parse_u8(trim(devnum)) {
        Some(v) => v,
        None => 0,
    };
    b == bus && d == addr
}

/// Whether a sysfs USB device entry, by its `idVendor` and `idProduct`
/// texts, is the Facecam: the trimmed texts are the four-digit lowercase
/// hexadecimal vendor and product IDs.
pub fn sysfs_entry_is_facecam(id_vendor: &str, id_product: &str) -> (r: bool)
    ensures
        r == (trimmed(id_vendor@) == hex4(ELGATO_VID) && trimmed(id_product@) == hex4(0x0078)),
{
    let mut vid = String::new();
    push_hex4(&mut vid, ELGATO_VID);
    let mut pid = String::new();
    push_hex4(&mut pid, ElgatoProduct::Facecam.pid());
    str_equal(trim(id_vendor), vid.as_str()) && str_equal(trim(id_product), pid.as_str())
}

/// The capture node a `video4linux` entry stands for: entries named
/// `video*` qualify when they have no `index` file or their index reads 0
/// (index 0 is the primary capture node, not metadata); the node is
/// `/dev/<name>`.
pub open spec fn v4l2_node(name: Seq<char>, index_text: Option<Seq<char>>) -> Option<Seq<char>> {
    let is_video = name.len() >= 5 && name.subrange(0, 5) == "video"@;
    let primary = match index_text {
        Some(t) => parse_unsigned(trimmed(t), u32::MAX as int) == Some(0int),
        None => true,
    };
    if is_video && primary { Some("/dev/"@ + name) } else { None }
}

pub open spec fn opt_view(s: Option<&str>) -> Option<Seq<char>> {
    match s {
        Some(t) => Some(t@),
        None => None,
    }
}

/// The capture node for one `video4linux` entry, from its name and the
/// text of its `index` file (`None` when there is no such file).
pub fn v4l2_node_for_entry(name: &str, index_text: Option<&str>) -> (r: Option<String>)
    ensures
        match r {
            Some(s) => v4l2_node(name@, opt_view(index_text)) == Some(s@),
            None => v4l2_node(name@, opt_view(index_text)) is None,
        },
{
    proof {
        reveal_strlit("video");
    }
    if !starts_with(name, "video") {
        return None;
    }
    let primary = match index_text {
        Some(text) => {
            let index = match parse_u32(trim(text)) {
                Some(v) => v,
                None => u32::MAX,
            };
            index == 0
        },
        None => true,
    };
    if primary {
        let mut node = String::from_str("/dev/");
        node.append(name);
        Some(node)
    } else {
        None
    }
}

/// The view of one `video4linux` entry: its name and the text of its
/// `index` file, if any.
pub open spec fn entry_view(e: (String, Option<String>)) -> (Seq<char>, Option<Seq<char>>) {
    (e.0@, match e.1 { Some(t) => Some(t@), None => None })
}

/// The capture node of the first entry of a `video4linux` listing that
/// stands for one, in listing order.
pub open spec fn first_node(entries: Seq<(Seq<char>, Option<Seq<char>>)>) -> Option<Seq<char>>
    decreases entries.len(),
{
    if entries.len() == 0 {
        None
    } else {
        match v4l2_node(entries[0].0, entries[0].1) {
            Some(node) => Some(node),
            None => first_node(entries.drop_first()),
        }
    }
}

/// The capture node of one `video4linux` directory, from its listing (each
/// entry's name with the text of its `index` file, when there is one):
/// the node of the first entry that stands for a capture node.
pub fn first_v4l2_node(entries: &[(String, Option<String>)]) -> (r: Option<String>)
    ensures
        match r {
            Some(s) => first_node(entries@.map_values(|e: (String, Option<String>)| entry_view(e))) == Some(s@),
            None => first_node(entries@.map_values(|e: (String, Option<String>)| entry_view(e))) is None,
        },
{
    let ghost views = entries@.map_values(|e: (String, Option<String>)| entry_view(e));
    assert(views.subrange(0, views.len() as int) =~= views);
    let mut i: usize = 0;
    while i < entries.len()
        invariant
            i <= entries@.len(),
            views == entries@.map_values(|e: (String, Option<String>)| entry_view(e)),
            first_node(views) == first_node(views.subrange(i as int, views.len() as int)),
        decreases entries.len() - i,
    {
        let entry = &entries[i];
        let index = match &entry.1 {
            Some(t) => Some(t.as_str()),
            None => None,
        };
        let node = v4l2_node_for_entry(entry.0.as_str(), index);
        let ghost rest = views.subrange(i as int, views.len() as int);
        assert(rest[0] == entry_view(entries@[i as int]));
        assert(opt_view(index) == entry_view(entries@[i as int]).1);
        if node.is_some() {
            return node;
        }
        assert(rest.drop_first() =~= views.subrange(i + 1, views.len() as int));
        i = i + 1;
    }
    assert(views.subrange(i as int, views.len() as int) =~= Seq::<(Seq<char>, Option<Seq<char>>)>::empty());
    None
}

/// USB topology details of a device, as sysfs reports them.
#[derive(Debug, Clone)]
pub struct UsbTopology {
    pub sysfs_path: String,
    pub busnum: Option<u8>,
    pub devnum: Option<u8>,
    pub speed: Option<String>,
    pub version: Option<String>,
    pub maxchild: Option<u8>,
    pub authorized: Option<u8>,
    pub manufacturer: Option<String>,
    pub product_name: Option<String>,
    pub bcd_device: Option<String>,
    pub configuration: Option<String>,
}

/// A sysfs text field, trimmed.
pub open spec fn text_field(raw: Option<&str>) -> Option<Seq<char>> {
    match raw {
        Some(t) => Some(trimmed(t@)),
        None => None,
    }
}

/// A sysfs byte field: the trimmed text parsed as a byte, absent when it
/// does not parse.
pub open spec fn byte_field(raw: Option<&str>) -> Option<u8> {
    match raw {
        Some(t) => match parse_unsigned(trimmed(t@), u8::MAX as int) {
            Some(v) => Some(v as u8),
            None => None,
        },
        None => None,
    }
}

pub open spec fn string_field_is(field: Option<String>, expected: Option<Seq<char>>) -> bool {
    match field {
        Some(s) => expected == Some(s@),
        None => expected is None,
    }
}

fn read_text_field(raw: Option<&str>) -> (r: Option<String>)
    ensures
        string_field_is(r, text_field(raw)),
{
    match raw {
        Some(t) => Some(String::from_str(trim(t))),
        None => None,
    }
}

fn read_byte_field(raw: Option<&str>) -> (r: Option<u8>)
    ensures
        r == byte_field(raw),
{
    match raw {
        Some(t) => parse_u8(trim(t)),
        None => None,
    }
}

/// The topology report of a device from the texts of its sysfs files
/// (`None` for a file that could not be read): text fields trimmed,
/// numeric fields parsed.
pub fn usb_topology(
    sysfs_path: &str,
    busnum: Option<&str>,
    devnum: Option<&str>,
    speed: Option<&str>,
    version: Option<&str>,
    maxchild: Option<&str>,
    authorized: Option<&str>,
    manufacturer: Option<&str>,
    product: Option<&str>,
    bcd_device: Option<&str>,
    configuration: Option<&str>,
) -> (r: UsbTopology)
    ensures
        r.sysfs_path@ == sysfs_path@,
        r.busnum == byte_field(busnum),
        r.devnum == byte_field(devnum),
        string_field_is(r.speed, text_field(speed)),
        string_field_is(r.version, text_field(version)),
        r.maxchild == byte_field(maxchild),
        r.authorized == byte_field(authorized),
        string_field_is(r.manufacturer, text_field(manufacturer)),
        string_field_is(r.product_name, text_field(product)),
        string_field_is(r.bcd_device, text_field(bcd_device)),
        string_field_is(r.configuration, text_field(configuration)),
{
    UsbTopology {
        sysfs_path: String::from_str(sysfs_path),
        busnum: read_byte_field(busnum),
        devnum: read_byte_field(devnum),
        speed: read_text_field(speed),
        version: read_text_field(version),
        maxchild: read_byte_field(maxchild),
        authorized: read_byte_field(authorized),
        manufacturer: read_text_field(manufacturer),
        product_name: read_text_field(product),
        bcd_device: read_text_field(bcd_device),
        configuration: read_text_field(configuration),
    }
}

} // verus!

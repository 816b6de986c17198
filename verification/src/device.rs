//! Elgato product identification, firmware versions and device fingerprints.
use vstd::prelude::*;
use vstd::string::*;
use crate::text::{decimal, decimal_list, decimal_pad2, hex4, push_decimal, push_decimal_list, push_decimal_pad2, push_hex4};

verus! {

/// Elgato vendor ID
pub const ELGATO_VID: u16 = 0x0fd9;

/// Known Elgato camera product IDs
#[derive(Debug, Clone, Copy, PartialEq, Eq, Structural, Hash)]
pub enum ElgatoProduct {
    Facecam,
    /// Facecam on USB 2.0 — non-functional, shows "USB3-REQUIRED-FOR-FACECAM"
    FacecamUsb2Fallback,
    FacecamPro,
    FacecamMk2,
    FacecamMk2Usb2,
    CamLink4K,
    Unknown(u16),
}

/// The product that a USB product ID identifies.
pub open spec fn product_for_pid(pid: u16) -> ElgatoProduct {
    if pid == 0x0078 {
        ElgatoProduct::Facecam
    } else if pid == 0x0077 {
        ElgatoProduct::FacecamUsb2Fallback
    } else if pid == 0x0079 {
        ElgatoProduct::FacecamPro
    } else if pid == 0x0093 {
        ElgatoProduct::FacecamMk2
    } else if pid == 0x0094 {
        ElgatoProduct::FacecamMk2Usb2
    } else if pid == 0x0066 {
        ElgatoProduct::CamLink4K
    } else {
        ElgatoProduct::Unknown(pid)
    }
}

/// The USB product ID of a product.
pub open spec fn pid_of(p: ElgatoProduct) -> u16 {
    match p {
        ElgatoProduct::Facecam => 0x0078,
        ElgatoProduct::FacecamUsb2Fallback => 0x0077,
        ElgatoProduct::FacecamPro => 0x0079,
        ElgatoProduct::FacecamMk2 => 0x0093,
        ElgatoProduct::FacecamMk2Usb2 => 0x0094,
        ElgatoProduct::CamLink4K => 0x0066,
        ElgatoProduct::Unknown(pid) => pid,
    }
}

/// Whether a product ID is one of the named products.
pub open spec fn is_known_pid(pid: u16) -> bool {
    pid == 0x0078 || pid == 0x0077 || pid == 0x0079 || pid == 0x0093 || pid == 0x0094
        || pid == 0x0066
}

/// The human-readable name of a product.
pub open spec fn product_name(p: ElgatoProduct) -> Seq<char> {
    match p {
        ElgatoProduct::Facecam => "Elgato Facecam"@,
        ElgatoProduct::FacecamUsb2Fallback => "Elgato Facecam (USB2 FALLBACK — NOT FUNCTIONAL)"@,
        ElgatoProduct::FacecamPro => "Elgato Facecam Pro"@,
        ElgatoProduct::FacecamMk2 => "Elgato Facecam MK.2"@,
        ElgatoProduct::FacecamMk2Usb2 => "Elgato Facecam MK.2 (USB2)"@,
        ElgatoProduct::CamLink4K => "Elgato Cam Link 4K"@,
        ElgatoProduct::Unknown(_) => "Unknown Elgato Device"@,
    }
}

/// A product rendered as `<name> (PID 0x<pid>)`, the pid in four
/// lowercase hexadecimal digits.
pub open spec fn product_display(p: ElgatoProduct) -> Seq<char> {
    product_name(p) + " (PID 0x"@ + hex4(pid_of(p)) + ")"@
}

impl ElgatoProduct {
    pub fn from_pid(pid: u16) -> (r: Self)
        ensures
            r == product_for_pid(pid),
    {
        match pid {
            0x0078 => ElgatoProduct::Facecam,
            0x0077 => ElgatoProduct::FacecamUsb2Fallback,
            0x0079 => ElgatoProduct::FacecamPro,
            0x0093 => ElgatoProduct::FacecamMk2,
            0x0094 => ElgatoProduct::FacecamMk2Usb2,
            0x0066 => ElgatoProduct::CamLink4K,
            other => ElgatoProduct::Unknown(other),
        }
    }

    pub fn pid(&self) -> (r: u16)
        ensures
            r == pid_of(*self),
    {
        match self {
            ElgatoProduct::Facecam => 0x0078,
            ElgatoProduct::FacecamUsb2Fallback => 0x0077,
            ElgatoProduct::FacecamPro => 0x0079,
            ElgatoProduct::FacecamMk2 => 0x0093,
            ElgatoProduct::FacecamMk2Usb2 => 0x0094,
            ElgatoProduct::CamLink4K => 0x0066,
            ElgatoProduct::Unknown(pid) => *pid,
        }
    }

    pub fn name(&self) -> (r: &str)
        ensures
            r@ == product_name(*self),
    {
        match self {
            ElgatoProduct::Facecam => "Elgato Facecam",
            ElgatoProduct::FacecamUsb2Fallback => "Elgato Facecam (USB2 FALLBACK — NOT FUNCTIONAL)",
            ElgatoProduct::FacecamPro => "Elgato Facecam Pro",
            ElgatoProduct::FacecamMk2 => "Elgato Facecam MK.2",
            ElgatoProduct::FacecamMk2Usb2 => "Elgato Facecam MK.2 (USB2)",
            ElgatoProduct::CamLink4K => "Elgato Cam Link 4K",
            ElgatoProduct::Unknown(_) => "Unknown Elgato Device",
        }
    }

    pub fn is_facecam_original(&self) -> (r: bool)
        ensures
            r == (*self == ElgatoProduct::Facecam),
    {
        match self {
            ElgatoProduct::Facecam => true,
            _ => false,
        }
    }

    /// Device is a Facecam stuck in USB 2.0 fallback mode
    pub fn is_usb2_fallback(&self) -> (r: bool)
        ensures
            r == (*self == ElgatoProduct::FacecamUsb2Fallback),
    {
        match self {
            ElgatoProduct::FacecamUsb2Fallback => true,
            _ => false,
        }
    }

    /// The display form: `<name> (PID 0x<pid>)`.
    pub fn to_display_string(&self) -> (r: String)
        ensures
            r@ == product_display(*self),
    {
        let mut s = String::from_str(self.name());
        s.append(" (PID 0x");
        push_hex4(&mut s, self.pid());
        s.append(")");
        s
    }
}

/// Firmware version parsed from bcdDevice USB descriptor
#[derive(Debug, Clone, Copy, PartialEq, Eq, Structural, PartialOrd, Ord)]
pub struct FirmwareVersion {
    pub major: u8,
    pub minor: u8,
}

/// Lexicographic order on (major, minor): `v` is strictly older than
/// `major.minor`.
pub open spec fn version_below(v: FirmwareVersion, major: u8, minor: u8) -> bool {
    v.major < major || (v.major == major && v.minor < minor)
}

/// `v` is `major.minor` or newer.
pub open spec fn version_at_least(v: FirmwareVersion, major: u8, minor: u8) -> bool {
    !version_below(v, major, minor)
}

/// A firmware version rendered as `<major>.<minor>`, the minor part
/// zero-padded to two digits.
pub open spec fn firmware_display(v: FirmwareVersion) -> Seq<char> {
    decimal(v.major as nat) + "."@ + decimal_pad2(v.minor as nat)
}

impl FirmwareVersion {
    pub fn from_bcd(bcd: u16) -> (r: Self)
        ensures
            r.major == bcd / 256,
            r.minor == bcd % 256,
    {
        assert(((bcd >> 8u16) & 0xFFu16) == bcd / 256) by (bit_vector);
        assert((bcd & 0xFFu16) == bcd % 256) by (bit_vector);
        Self {
            major: ((bcd >> 8) & 0xFF) as u8,
            minor: (bcd & 0xFF) as u8,
        }
    }

    /// Firmware 4.00+ has MJPEG support (empirically confirmed on 4.00,
    /// earlier research suggested 4.03 but real device shows MJPEG on 4.00)
    pub fn has_mjpeg(&self) -> (r: bool)
        ensures
            r == version_at_least(*self, 4, 0),
    {
        self.major > 4 || (self.major == 4 && self.minor >= 0)
    }

    /// Firmware 3.00+ added bulk/iso transfer mode selection
    pub fn has_transfer_mode_selection(&self) -> (r: bool)
        ensures
            r == version_at_least(*self, 3, 0),
    {
        self.major > 3 || (self.major == 3 && self.minor >= 0)
    }

    /// Strict order on versions, as the derived `Ord` compares them.
    pub fn is_below(&self, other: &FirmwareVersion) -> (r: bool)
        ensures
            r == version_below(*self, other.major, other.minor),
    {
        self.major < other.major || (self.major == other.major && self.minor < other.minor)
    }

    /// The display form: `<major>.<minor:02>`.
    pub fn to_display_string(&self) -> (r: String)
        ensures
            r@ == firmware_display(*self),
    {
        let mut s = String::new();
        push_decimal(&mut s, self.major as u64);
        s.append(".");
        push_decimal_pad2(&mut s, self.minor as u64);
        s
    }
}

#[derive(Debug, Clone, Copy, PartialEq, Eq, Structural)]
pub enum UsbSpeed {
    Low,
    Full,
    High,
    Super,
    SuperPlus,
    Unknown,
}

/// The display label of a USB speed.
pub open spec fn speed_label(s: UsbSpeed) -> Seq<char> {
    match s {
        UsbSpeed::Low => "Low (1.5 Mbps)"@,
        UsbSpeed::Full => "Full (12 Mbps)"@,
        UsbSpeed::High => "High (480 Mbps)"@,
        UsbSpeed::Super => "SuperSpeed (5 Gbps)"@,
        UsbSpeed::SuperPlus => "SuperSpeed+ (10+ Gbps)"@,
        UsbSpeed::Unknown => "Unknown"@,
    }
}

impl UsbSpeed {
    /// The display form of the speed.
    pub fn label(&self) -> (r: &str)
        ensures
            r@ == speed_label(*self),
    {
        match self {
            UsbSpeed::Low => "Low (1.5 Mbps)",
            UsbSpeed::Full => "Full (12 Mbps)",
            UsbSpeed::High => "High (480 Mbps)",
            UsbSpeed::Super => "SuperSpeed (5 Gbps)",
            UsbSpeed::SuperPlus => "SuperSpeed+ (10+ Gbps)",
            UsbSpeed::Unknown => "Unknown",
        }
    }
}

/// Full device fingerprint collected during probe
#[derive(Debug, Clone)]
pub struct DeviceFingerprint {
    pub product: ElgatoProduct,
    pub firmware: FirmwareVersion,
    pub serial: String,
    pub usb_bus: u8,
    pub usb_address: u8,
    pub usb_port_numbers: Vec<u8>,
    pub usb_speed: UsbSpeed,
    pub v4l2_device: Option<String>,
    pub v4l2_sysfs_path: Option<String>,
    pub driver_version: Option<String>,
    pub card_name: Option<String>,
}

/// An optional labelled line: empty when the value is absent.
pub open spec fn optional_line(label: Seq<char>, value: Option<String>) -> Seq<char> {
    match value {
        Some(v) => label + v@ + "\n"@,
        None => Seq::empty(),
    }
}

/// The multi-line report of a fingerprint.
pub open spec fn fingerprint_display(f: DeviceFingerprint) -> Seq<char> {
    "Device:     "@ + product_display(f.product) + "\n"@
    + "Firmware:   "@ + firmware_display(f.firmware) + "\n"@
    + "Serial:     "@ + f.serial@ + "\n"@
    + "USB:        bus "@ + decimal(f.usb_bus as nat) + " addr "@ + decimal(f.usb_address as nat)
        + " ("@ + speed_label(f.usb_speed) + ")"@ + "\n"@
    + "Port Path:  "@ + decimal_list(f.usb_port_numbers@) + "\n"@
    + optional_line("V4L2:       "@, f.v4l2_device)
    + optional_line("Card:       "@, f.card_name)
}

impl DeviceFingerprint {
    /// The multi-line report of the fingerprint.
    pub fn to_display_string(&self) -> (r: String)
        ensures
            r@ == fingerprint_display(*self),
    {
        let mut s = String::from_str("Device:     ");
        let product = self.product.to_display_string();
        s.append(product.as_str());
        s.append("\n");
        s.append("Firmware:   ");
        let firmware = self.firmware.to_display_string();
        s.append(firmware.as_str());
        s.append("\n");
        s.append("Serial:     ");
        s.append(self.serial.as_str());
        s.append("\n");
        s.append("USB:        bus ");
        push_decimal(&mut s, self.usb_bus as u64);
        s.append(" addr ");
        push_decimal(&mut s, self.usb_address as u64);
        s.append(" (");
        s.append(self.usb_speed.label());
        s.append(")");
        s.append("\n");
        s.append("Port Path:  ");
        push_decimal_list(&mut s, &self.usb_port_numbers);
        s.append("\n");
        let ghost before_optional = s@;
        match &self.v4l2_device {
            Some(dev) => {
                s.append("V4L2:       ");
                s.append(dev.as_str());
                s.append("\n");
            },
            None => {},
        }
        let ghost mid = s@;
        assert(mid == before_optional + optional_line("V4L2:       "@, self.v4l2_device));
        match &self.card_name {
            Some(card) => {
                s.append("Card:       ");
                s.append(card.as_str());
                s.append("\n");
            },
            None => {},
        }
        assert(s@ == mid + optional_line("Card:       "@, self.card_name));
        assert(s@ =~= fingerprint_display(*self));
        s
    }
}

/// Each product has its own fixed name: "Elgato Facecam", the USB 2.0
/// fallback's "Elgato Facecam (USB2 FALLBACK — NOT FUNCTIONAL)",
/// "Elgato Facecam Pro", "Elgato Facecam MK.2", "Elgato Facecam MK.2 (USB2)",
/// "Elgato Cam Link 4K", and "Unknown Elgato Device" for every unknown ID;
/// a name belongs to no other product.
pub proof fn lemma_product_names(p: ElgatoProduct)
    ensures
        (product_name(p) == "Elgato Facecam"@) == (p == ElgatoProduct::Facecam),
        (product_name(p) == "Elgato Facecam (USB2 FALLBACK — NOT FUNCTIONAL)"@) == (p == ElgatoProduct::FacecamUsb2Fallback),
        (product_name(p) == "Elgato Facecam Pro"@) == (p == ElgatoProduct::FacecamPro),
        (product_name(p) == "Elgato Facecam MK.2"@) == (p == ElgatoProduct::FacecamMk2),
        (product_name(p) == "Elgato Facecam MK.2 (USB2)"@) == (p == ElgatoProduct::FacecamMk2Usb2),
        (product_name(p) == "Elgato Cam Link 4K"@) == (p == ElgatoProduct::CamLink4K),
        (product_name(p) == "Unknown Elgato Device"@) == (p is Unknown),
{
    reveal_strlit("Elgato Facecam");
    reveal_strlit("Elgato Facecam (USB2 FALLBACK — NOT FUNCTIONAL)");
    reveal_strlit("Elgato Facecam Pro");
    reveal_strlit("Elgato Facecam MK.2");
    reveal_strlit("Elgato Facecam MK.2 (USB2)");
    reveal_strlit("Elgato Cam Link 4K");
    reveal_strlit("Unknown Elgato Device");
    assert("Elgato Facecam"@.len() == 14);
    assert("Elgato Facecam (USB2 FALLBACK — NOT FUNCTIONAL)"@.len() == 47);
    assert("Elgato Facecam Pro"@.len() == 18);
    assert("Elgato Facecam MK.2"@.len() == 19);
    assert("Elgato Facecam MK.2 (USB2)"@.len() == 26);
    assert("Elgato Cam Link 4K"@.len() == 18);
    assert("Unknown Elgato Device"@.len() == 21);
    // The two 18-character names differ at their eighth character.
    assert("Elgato Facecam Pro"@[7] != "Elgato Cam Link 4K"@[7]);
}

/// Products with the same name are the same product, but for unknown IDs,
/// which all share one name.
pub proof fn lemma_product_names_distinct(p: ElgatoProduct, q: ElgatoProduct)
    ensures
        product_name(p) == product_name(q) ==> p == q || (p is Unknown && q is Unknown),
{
    lemma_product_names(p);
    lemma_product_names(q);
}

/// Round trip: the product named by a product ID carries that ID.
pub proof fn lemma_pid_of_product_for_pid(pid: u16)
    ensures
        pid_of(product_for_pid(pid)) == pid,
{
}

/// Round trip: looking up a product's own ID gives the product back,
/// except for an unknown product that carries a known ID.
pub proof fn lemma_product_for_pid_of(p: ElgatoProduct)
    requires
        !(p is Unknown && is_known_pid(pid_of(p))),
    ensures
        product_for_pid(pid_of(p)) == p,
{
}

/// Round trip: a firmware version decoded from a bcdDevice value encodes
/// back to that value.
pub proof fn lemma_bcd_round_trip(bcd: u16, v: FirmwareVersion)
    requires
        v.major == bcd / 256,
        v.minor == bcd % 256,
    ensures
        v.major * 256 + v.minor == bcd,
{
}

/// MJPEG support implies transfer-mode selection (4.00 is above 3.00).
pub proof fn lemma_mjpeg_implies_transfer_mode(v: FirmwareVersion)
    ensures
        version_at_least(v, 4, 0) ==> version_at_least(v, 3, 0),
{
}

} // verus!

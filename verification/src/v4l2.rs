//! Parsing of the V4L2 `VIDIOC_QUERYCAP` (104 bytes) and
//! `VIDIOC_QUERYCTRL` (68 bytes) kernel responses. A buggy device can
//! return garbage in them; parsing accepts every byte string.
use vstd::prelude::*;
use vstd::utf8::{decode_utf8, valid_utf8};
use vstd::slice::slice_subrange;
use crate::text::push_decimal;

verus! {

/// The bytes of a fixed-size, NUL-padded string field: everything before
/// the first zero byte (the whole field when it has none).
pub open spec fn until_nul(b: Seq<u8>) -> Seq<u8>
    decreases b.len(),
{
    if b.len() == 0 {
        b
    } else if b[0] == 0 {
        Seq::empty()
    } else {
        seq![b[0]] + until_nul(b.drop_first())
    }
}

/// The text `String::from_utf8_lossy` makes of some bytes.
pub uninterp spec fn utf8_lossy(bytes: Seq<u8>) -> Seq<char>;

/// `String::from_utf8_lossy`: the bytes decoded as UTF-8, invalid
/// sequences replaced by U+FFFD. The contract names the result and states
/// what the documentation gives plainly: valid UTF-8 decodes unchanged.
#[verifier::external_body]
fn utf8_lossy_string(bytes: &[u8]) -> (r: String)
    ensures
        r@ == utf8_lossy(bytes@),
        valid_utf8(bytes@) ==> r@ == decode_utf8(bytes@),
{
    String::from_utf8_lossy(bytes).to_string()
}

/// The position of the first zero byte in `b`, or its length.
proof fn lemma_until_nul_prefix(b: Seq<u8>, end: int)
    requires
        0 <= end <= b.len(),
        forall|j: int| 0 <= j < end ==> b[j] != 0,
        end == b.len() || b[end] == 0,
    ensures
        until_nul(b) == b.subrange(0, end),
    decreases b.len(),
{
    if b.len() > 0 && end > 0 {
        lemma_until_nul_prefix(b.drop_first(), end - 1);
        assert(seq![b[0]] + b.drop_first().subrange(0, end - 1) =~= b.subrange(0, end));
    } else if b.len() > 0 {
        assert(b.subrange(0, 0) =~= Seq::<u8>::empty());
    } else {
        assert(b.subrange(0, 0) =~= b);
    }
}

/// Reads a NUL-padded string field: the bytes before the first zero,
/// decoded as UTF-8 with invalid sequences replaced.
pub fn read_fixed_string(buf: &[u8]) -> (r: String)
    ensures
        r@ == utf8_lossy(until_nul(buf@)),
{
    let mut end: usize = 0;
    while end < buf.len() && buf[end] != 0
        invariant
            end <= buf@.len(),
            forall|j: int| 0 <= j < end ==> buf@[j] != 0,
        decreases buf.len() - end,
    {
        end = end + 1;
    }
    proof {
        lemma_until_nul_prefix(buf@, end as int);
    }
    let bytes = slice_subrange(buf, 0, end);
    utf8_lossy_string(bytes)
}

/// Four bytes read as a little-endian unsigned integer.
pub open spec fn u32_le(b: Seq<u8>) -> int {
    b[0] + b[1] * 256 + b[2] * 65536 + b[3] * 16777216
}

/// Four bytes read as a big-endian unsigned integer.
pub open spec fn u32_be(b: Seq<u8>) -> int {
    b[3] + b[2] * 256 + b[1] * 65536 + b[0] * 16777216
}

/// `u32::from_ne_bytes`: the bytes in the machine's byte order. Which
/// order that is, the machine decides; the contract states that it is one
/// of the two.
#[verifier::external_body]
fn u32_from_ne_bytes(bytes: [u8; 4]) -> (r: u32)
    ensures
        r == u32_le(bytes@) || r == u32_be(bytes@),
{
    u32::from_ne_bytes(bytes)
}

/// Four bytes read as an unsigned integer, least significant byte first
/// when `little` holds, most significant first otherwise.
pub open spec fn u32_in_order(b: Seq<u8>, little: bool) -> int {
    if little { u32_le(b) } else { u32_be(b) }
}

/// Whether this machine stores integers least significant byte first:
/// its native reading of the bytes 1, 0, 0, 0 is 1.
fn native_little_endian() -> bool {
    u32_from_ne_bytes([1, 0, 0, 0]) == 1
}

/// A `u32` field at byte offset `off`, in the given byte order.
fn field_u32(data: &[u8], off: usize, little: bool) -> (r: u32)
    requires
        off + 4 <= data@.len(),
    ensures
        r == u32_in_order(data@.subrange(off as int, off + 4), little),
{
    let b0 = data[off] as u32;
    let b1 = data[off + 1] as u32;
    let b2 = data[off + 2] as u32;
    let b3 = data[off + 3] as u32;
    if little {
        b0 + b1 * 256 + b2 * 65536 + b3 * 16777216
    } else {
        b3 + b2 * 256 + b1 * 65536 + b0 * 16777216
    }
}

/// The reinterpretation of a 32-bit pattern as a signed integer.
pub open spec fn as_signed(v: int) -> int {
    if v < 0x8000_0000 { v } else { v - 0x1_0000_0000 }
}

/// An `i32` field at byte offset `off`, in the given byte order.
fn field_i32(data: &[u8], off: usize, little: bool) -> (r: i32)
    requires
        off + 4 <= data@.len(),
    ensures
        r == as_signed(u32_in_order(data@.subrange(off as int, off + 4), little)),
{
    let v = field_u32(data, off, little);
    if v < 0x8000_0000 {
        v as i32
    } else {
        let low = (v - 0x8000_0000) as i32;
        low - 0x4000_0000 - 0x4000_0000
    }
}

/// The capability bits that describe the opened device node: the
/// device-specific set when the driver reports one
/// (`V4L2_CAP_DEVICE_CAPS`, bit 31), the driver-wide set otherwise.
pub open spec fn effective_caps(capabilities: u32, device_caps: u32) -> u32 {
    if capabilities & 0x8000_0000 != 0 { device_caps } else { capabilities }
}

/// The kernel version `major.minor.patch` packed in a 32-bit value.
pub open spec fn version_text(version: u32) -> Seq<char> {
    crate::text::decimal(((version / 65536) % 256) as nat) + "."@
        + crate::text::decimal(((version / 256) % 256) as nat) + "."@
        + crate::text::decimal((version % 256) as nat)
}

/// A parsed `VIDIOC_QUERYCAP` response.
#[derive(Debug, Clone)]
pub struct QueryCap {
    pub driver: String,
    pub card: String,
    pub bus_info: String,
    pub version: u32,
    pub version_text: String,
    pub capabilities: u32,
    pub device_caps: u32,
    pub effective_caps: u32,
    pub has_capture: bool,
    pub has_output: bool,
    pub has_streaming: bool,
    pub has_readwrite: bool,
}

/// Whether `field` is the reading of bytes `[off, off + 4)` in the given
/// byte order.
pub open spec fn reads_u32(data: Seq<u8>, off: int, field: u32, little: bool) -> bool {
    field == u32_in_order(data.subrange(off, off + 4), little)
}

/// What a parsed `VIDIOC_QUERYCAP` response holds, its numbers read in
/// the given byte order: the three string fields, the version and
/// capability words, the effective capability set and its capture,
/// output, streaming and read/write bits.
pub open spec fn querycap_fields(data: Seq<u8>, c: QueryCap, little: bool) -> bool {
    &&& c.driver@ == utf8_lossy(until_nul(data.subrange(0, 16)))
    &&& c.card@ == utf8_lossy(until_nul(data.subrange(16, 48)))
    &&& c.bus_info@ == utf8_lossy(until_nul(data.subrange(48, 80)))
    &&& reads_u32(data, 80, c.version, little)
    &&& reads_u32(data, 84, c.capabilities, little)
    &&& reads_u32(data, 88, c.device_caps, little)
    &&& c.version_text@ == version_text(c.version)
    &&& c.effective_caps == effective_caps(c.capabilities, c.device_caps)
    &&& c.has_capture == (c.effective_caps & 0x0000_0001 != 0)
    &&& c.has_output == (c.effective_caps & 0x0000_0002 != 0)
    &&& c.has_streaming == (c.effective_caps & 0x0400_0000 != 0)
    &&& c.has_readwrite == (c.effective_caps & 0x0100_0000 != 0)
}

/// Parses a `VIDIOC_QUERYCAP` response in the machine's byte order: `None`
/// when it is shorter than 104 bytes.
pub fn parse_querycap(data: &[u8]) -> (r: Option<QueryCap>)
    ensures
        r is None <==> data@.len() < 104,
        r matches Some(c) ==> querycap_fields(data@, c, true) || querycap_fields(data@, c, false),
{
    let little = native_little_endian();
    parse_querycap_in_order(data, little)
}

/// Parses a `VIDIOC_QUERYCAP` response whose numbers are stored least
/// significant byte first when `little` holds: `None` when it is shorter
/// than 104 bytes.
pub fn parse_querycap_in_order(data: &[u8], little: bool) -> (r: Option<QueryCap>)
    ensures
        r is None <==> data@.len() < 104,
        r matches Some(c) ==> querycap_fields(data@, c, little),
{
    if data.len() < 104 {
        return None;
    }
    let driver_bytes = slice_subrange(data, 0, 16);
    let card_bytes = slice_subrange(data, 16, 48);
    let bus_bytes = slice_subrange(data, 48, 80);
    let driver = read_fixed_string(driver_bytes);
    let card = read_fixed_string(card_bytes);
    let bus_info = read_fixed_string(bus_bytes);
    let version = field_u32(data, 80, little);
    let capabilities = field_u32(data, 84, little);
    let device_caps = field_u32(data, 88, little);
    let effective = if capabilities & 0x8000_0000 != 0 { device_caps } else { capabilities };
    let mut text = String::new();
    assert(((version >> 16u32) & 0xFFu32) == (version / 65536) % 256) by (bit_vector);
    assert(((version >> 8u32) & 0xFFu32) == (version / 256) % 256) by (bit_vector);
    assert((version & 0xFFu32) == version % 256) by (bit_vector);
    push_decimal(&mut text, ((version >> 16) & 0xFF) as u64);
    text.append(".");
    push_decimal(&mut text, ((version >> 8) & 0xFF) as u64);
    text.append(".");
    push_decimal(&mut text, (version & 0xFF) as u64);
    Some(QueryCap {
        driver,
        card,
        bus_info,
        version,
        version_text: text,
        capabilities,
        device_caps,
        effective_caps: effective,
        has_capture: effective & 0x0000_0001 != 0,
        has_output: effective & 0x0000_0002 != 0,
        has_streaming: effective & 0x0400_0000 != 0,
        has_readwrite: effective & 0x0100_0000 != 0,
    })
}

/// The name of a V4L2 control type code.
pub open spec fn control_type_name(code: u32) -> Seq<char> {
    if code == 1 { "integer"@ }
    else if code == 2 { "boolean"@ }
    else if code == 3 { "menu"@ }
    else if code == 4 { "button"@ }
    else if code == 5 { "integer64"@ }
    else if code == 6 { "ctrl_class"@ }
    else if code == 7 { "string"@ }
    else if code == 8 { "bitmask"@ }
    else if code == 9 { "integer_menu"@ }
    else { "unknown"@ }
}

/// The control type names follow the V4L2 control type codes: each of the
/// nine known codes has its own name (1 integer, 2 boolean, 3 menu,
/// 4 button, 5 integer64, 6 ctrl_class, 7 string, 8 bitmask,
/// 9 integer_menu), and every other code reads "unknown".
pub proof fn lemma_control_type_names(code: u32)
    ensures
        (control_type_name(code) == "integer"@) == (code == 1),
        (control_type_name(code) == "boolean"@) == (code == 2),
        (control_type_name(code) == "menu"@) == (code == 3),
        (control_type_name(code) == "button"@) == (code == 4),
        (control_type_name(code) == "integer64"@) == (code == 5),
        (control_type_name(code) == "ctrl_class"@) == (code == 6),
        (control_type_name(code) == "string"@) == (code == 7),
        (control_type_name(code) == "bitmask"@) == (code == 8),
        (control_type_name(code) == "integer_menu"@) == (code == 9),
        (control_type_name(code) == "unknown"@) == (code == 0 || code > 9),
{
    reveal_strlit("integer");
    reveal_strlit("boolean");
    reveal_strlit("menu");
    reveal_strlit("button");
    reveal_strlit("integer64");
    reveal_strlit("ctrl_class");
    reveal_strlit("string");
    reveal_strlit("bitmask");
    reveal_strlit("integer_menu");
    reveal_strlit("unknown");
    // Names of equal length differ in their first two characters.
    assert("integer"@[0] != "boolean"@[0]);
    assert("integer"@[0] != "bitmask"@[0]);
    assert("integer"@[0] != "unknown"@[0]);
    assert("boolean"@[1] != "bitmask"@[1]);
    assert("boolean"@[0] != "unknown"@[0]);
    assert("bitmask"@[0] != "unknown"@[0]);
    assert("button"@[0] != "string"@[0]);
    assert("integer"@.len() == 7 && "boolean"@.len() == 7 && "bitmask"@.len() == 7 && "unknown"@.len() == 7);
    assert("menu"@.len() == 4 && "button"@.len() == 6 && "string"@.len() == 6);
    assert("integer64"@.len() == 9 && "ctrl_class"@.len() == 10 && "integer_menu"@.len() == 12);
}

/// The number of steps of a control's range, when the step is positive and
/// the range is not inverted.
pub open spec fn range_steps(minimum: i32, maximum: i32, step: i32) -> Option<int> {
    if step > 0 && maximum >= minimum {
        Some((maximum - minimum) / (step as int))
    } else {
        None
    }
}

/// The size of a menu control's range as the saturating difference of the
/// two bounds widened to 64 bits (a negative bound wraps), for a range
/// that is not inverted: the plain difference when both bounds have the
/// same sign, zero otherwise.
pub open spec fn menu_span(minimum: i32, maximum: i32) -> int {
    if (maximum >= 0) == (minimum >= 0) { maximum - minimum } else { 0 }
}

/// A parsed `VIDIOC_QUERYCTRL` response.
#[derive(Debug, Clone)]
pub struct QueryCtrl {
    pub id: u32,
    pub type_code: u32,
    pub kind_name: &'static str,
    pub name: String,
    pub minimum: i32,
    pub maximum: i32,
    pub step: i32,
    pub default: i32,
    pub flags: u32,
    /// Number of steps in the range, when the step is positive and the
    /// range is not inverted.
    pub steps: Option<i64>,
    /// A menu whose range spans more than 1000 entries.
    pub oversized_menu: bool,
}

/// Whether `field` is the signed reading of bytes `[off, off + 4)` in the
/// given byte order.
pub open spec fn reads_i32(data: Seq<u8>, off: int, field: i32, little: bool) -> bool {
    field == as_signed(u32_in_order(data.subrange(off, off + 4), little))
}

/// The control type's name for a type code.
fn control_kind_name(code: u32) -> (r: &'static str)
    ensures
        r@ == control_type_name(code),
{
    match code {
        1 => "integer",
        2 => "boolean",
        3 => "menu",
        4 => "button",
        5 => "integer64",
        6 => "ctrl_class",
        7 => "string",
        8 => "bitmask",
        9 => "integer_menu",
        _ => "unknown",
    }
}

/// What a parsed `VIDIOC_QUERYCTRL` response holds, its numbers read in
/// the given byte order: the control ID, type, name, range, default and
/// flags, the number of steps in the range, and whether a menu's range is
/// oversized (more than 1000 entries).
pub open spec fn queryctrl_fields(data: Seq<u8>, c: QueryCtrl, little: bool) -> bool {
    &&& reads_u32(data, 0, c.id, little)
    &&& reads_u32(data, 4, c.type_code, little)
    &&& c.kind_name@ == control_type_name(c.type_code)
    &&& c.name@ == utf8_lossy(until_nul(data.subrange(8, 40)))
    &&& reads_i32(data, 40, c.minimum, little)
    &&& reads_i32(data, 44, c.maximum, little)
    &&& reads_i32(data, 48, c.step, little)
    &&& reads_i32(data, 52, c.default, little)
    &&& reads_u32(data, 56, c.flags, little)
    &&& c.steps == match range_steps(c.minimum, c.maximum, c.step) {
        Some(n) => Some(n as i64),
        None => None::<i64>,
    }
    &&& c.oversized_menu == (c.type_code == 3 && c.maximum >= c.minimum
        && menu_span(c.minimum, c.maximum) > 1000)
}

/// Parses a `VIDIOC_QUERYCTRL` response in the machine's byte order: `None`
/// when it is shorter than 68 bytes.
pub fn parse_queryctrl(data: &[u8]) -> (r: Option<QueryCtrl>)
    ensures
        r is None <==> data@.len() < 68,
        r matches Some(c) ==> queryctrl_fields(data@, c, true) || queryctrl_fields(data@, c, false),
{
    let little = native_little_endian();
    parse_queryctrl_in_order(data, little)
}

/// Parses a `VIDIOC_QUERYCTRL` response whose numbers are stored least
/// significant byte first when `little` holds: `None` when it is shorter
/// than 68 bytes.
pub fn parse_queryctrl_in_order(data: &[u8], little: bool) -> (r: Option<QueryCtrl>)
    ensures
        r is None <==> data@.len() < 68,
        r matches Some(c) ==> queryctrl_fields(data@, c, little),
{
    if data.len() < 68 {
        return None;
    }
    let ctrl_id = field_u32(data, 0, little);
    let ctrl_type_raw = field_u32(data, 4, little);
    let name_bytes = slice_subrange(data, 8, 40);
    let name = read_fixed_string(name_bytes);
    let minimum = field_i32(data, 40, little);
    let maximum = field_i32(data, 44, little);
    let step = field_i32(data, 48, little);
    let default = field_i32(data, 52, little);
    let flags = field_u32(data, 56, little);
    let ctrl_type = control_kind_name(ctrl_type_raw);
    // Validate that range calculations don't overflow
    let steps = if step > 0 && maximum >= minimum {
        let range = (maximum as i64) - (minimum as i64);
        Some(range / (step as i64))
    } else {
        None
    };
    // Check for menu bounds sanity — prevent OOM from huge ranges
    let oversized_menu = if ctrl_type_raw == 3 && maximum >= minimum {
        let menu_size: i64 = if (maximum >= 0) == (minimum >= 0) {
            (maximum as i64) - (minimum as i64)
        } else {
            0
        };
        menu_size > 1000
    } else {
        false
    };
    Some(QueryCtrl {
        id: ctrl_id,
        type_code: ctrl_type_raw,
        kind_name: ctrl_type,
        name,
        minimum,
        maximum,
        step,
        default,
        flags,
        steps,
        oversized_menu,
    })
}

} // verus!

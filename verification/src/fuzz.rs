//! Fuzz harness over device identification: any byte string is accepted
//! without a panic.
use vstd::prelude::*;
use crate::device::{ElgatoProduct, FirmwareVersion};
use crate::quirks::applicable_quirks;

verus! {

/// Two bytes read as a little-endian 16-bit value.
pub open spec fn u16_le(lo: u8, hi: u8) -> u16 {
    (lo + hi * 256) as u16
}

fn u16_from_le(lo: u8, hi: u8) -> (r: u16)
    ensures
        r == u16_le(lo, hi),
{
    lo as u16 + (hi as u16) * 256
}

/// Product ID and BCD version decoded from arbitrary input: the first two
/// bytes are the product ID, the next two the bcdDevice value, both
/// little-endian; inputs shorter than four bytes are rejected. Every
/// method of the decoded product and firmware version is exercised, and,
/// when a fifth byte with its low bit clear is present, the quirk
/// matching too.
pub fn fuzz_device(data: &[u8]) -> (r: Option<()>)
    ensures
        r is Some <==> data@.len() >= 4,
{
    if data.len() < 4 {
        return None;
    }
    let pid = u16_from_le(data[0], data[1]);
    let bcd = u16_from_le(data[2], data[3]);
    let product = ElgatoProduct::from_pid(pid);
    let firmware = FirmwareVersion::from_bcd(bcd);
    // Exercise all methods
    let _ = product.pid();
    let _ = product.name();
    let _ = product.is_facecam_original();
    let _ = product.is_usb2_fallback();
    let _ = product.to_display_string();
    let _ = firmware.has_mjpeg();
    let _ = firmware.has_transfer_mode_selection();
    let _ = firmware.to_display_string();
    // Exercise quirk matching
    if data.len() >= 5 && data[4] & 0x01 == 0 {
        let quirks = applicable_quirks(product, firmware);
        let mut i: usize = 0;
        while i < quirks.len()
            invariant
                i <= quirks@.len(),
            decreases quirks.len() - i,
        {
            let q = quirks[i];
            let _ = q.id;
            let _ = q.summary;
            let _ = q.severity;
            i = i + 1;
        }
    }
    Some(())
}

} // verus!

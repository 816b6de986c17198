//! The registry of known Facecam quirks and the selection of those that
//! apply to a given device.
use vstd::prelude::*;
use crate::device::{ElgatoProduct, FirmwareVersion, version_at_least, version_below};
use crate::formats::PixelFormat;

verus! {

/// A known device quirk with its mitigation
#[derive(Debug, Clone, Copy)]
pub struct Quirk {
    pub id: &'static str,
    pub summary: &'static str,
    pub description: &'static str,
    pub affected: QuirkScope,
    pub severity: QuirkSeverity,
    pub mitigation: QuirkMitigation,
}

#[derive(Debug, Clone, Copy, PartialEq, Eq, Structural)]
pub enum QuirkSeverity {
    /// Informational — no functional impact
    Info,
    /// Degraded experience but usable
    Warning,
    /// Feature broken, workaround available
    Error,
    /// Device unusable without mitigation
    Critical,
}

#[derive(Debug, Clone, Copy)]
pub enum QuirkScope {
    /// Affects all firmware versions
    AllFirmware,
    /// Affects firmware below a version
    FirmwareBelow(FirmwareVersion),
    /// Affects specific format
    Format(PixelFormat),
    /// Affects specific product
    Product(ElgatoProduct),
}

#[derive(Debug, Clone, Copy)]
pub enum QuirkMitigation {
    /// Use v4l2loopback normalization pipeline
    NormalizationPipeline,
    /// Perform USB sysfs reset before stream start
    UsbReset,
    /// Skip this format during negotiation
    SkipFormat(PixelFormat),
    /// Update firmware
    FirmwareUpdate(FirmwareVersion),
    /// Force specific pixel format
    ForceFormat(PixelFormat),
    /// No automatic mitigation available
    Manual(&'static str),
}

/// The registry's entries, in order.
pub open spec fn registry_entries() -> Seq<Quirk> {
    seq![
        Quirk {
            id: "BOGUS_NV12",
            summary: "NV12 format advertised but produces garbage frames",
            description: "The Facecam USB descriptor advertises NV12 (Y/CbCr 4:2:0) as a \
                supported format, but streaming in NV12 produces green or empty frames. \
                Only YUYV produces valid uncompressed output.",
            affected: QuirkScope::Format(PixelFormat::Nv12),
            severity: QuirkSeverity::Error,
            mitigation: QuirkMitigation::SkipFormat(PixelFormat::Nv12),
        },
        Quirk {
            id: "BOGUS_YU12",
            summary: "YU12 format advertised but produces garbage frames",
            description: "The Facecam USB descriptor advertises YU12 (Planar YUV 4:2:0) as a \
                supported format, but streaming in YU12 produces green or empty frames. \
                Only YUYV produces valid uncompressed output.",
            affected: QuirkScope::Format(PixelFormat::Yu12),
            severity: QuirkSeverity::Error,
            mitigation: QuirkMitigation::SkipFormat(PixelFormat::Yu12),
        },
        Quirk {
            id: "OPEN_CLOSE_LOCKUP",
            summary: "Device locks up after consumer close/reopen cycle",
            description: "After the first application closes the V4L2 device, subsequent opens \
                fail with EBUSY or produce no frames. The device requires a USB reset \
                (sysfs authorized flag cycle) to recover. The v4l2loopback normalization \
                pipeline mitigates this by keeping a single long-lived producer.",
            affected: QuirkScope::AllFirmware,
            severity: QuirkSeverity::Critical,
            mitigation: QuirkMitigation::NormalizationPipeline,
        },
        Quirk {
            id: "STARTUP_UNRELIABILITY",
            summary: "~50% failure rate on initial stream start",
            description: "The Facecam fails to initialize the video stream approximately half \
                the time on first open. A USB reset followed by retry resolves this. \
                The daemon must implement retry-with-reset logic.",
            affected: QuirkScope::AllFirmware,
            severity: QuirkSeverity::Error,
            mitigation: QuirkMitigation::UsbReset,
        },
        Quirk {
            id: "NO_MJPEG_OLD_FW",
            summary: "No MJPEG support on firmware < 4.00",
            description: "Firmware versions below 4.00 only support uncompressed formats. \
                Chromium-based browsers require MJPEG or cannot negotiate the camera. \
                The v4l2loopback pipeline resolves this by presenting a normalized output.",
            affected: QuirkScope::FirmwareBelow(FirmwareVersion { major: 4, minor: 0 }),
            severity: QuirkSeverity::Warning,
            mitigation: QuirkMitigation::NormalizationPipeline,
        },
        Quirk {
            id: "CHROMIUM_FORMAT_REJECT",
            summary: "Chromium rejects devices with both CAPTURE and OUTPUT caps",
            description: "Chromium-based browsers refuse to use V4L2 devices that report both \
                V4L2_CAP_VIDEO_CAPTURE and V4L2_CAP_VIDEO_OUTPUT in their capabilities. \
                v4l2loopback with exclusive_caps=1 resolves this.",
            affected: QuirkScope::AllFirmware,
            severity: QuirkSeverity::Error,
            mitigation: QuirkMitigation::NormalizationPipeline,
        },
        Quirk {
            id: "USB2_FALLBACK_MODE",
            summary: "Facecam presents PID 0x0077 on USB 2.0 with no video capability",
            description: "When connected to a USB 2.0 port, the Facecam enumerates with \
                PID 0x0077 instead of 0x0078 and a product string of \
                'USB3-REQUIRED-FOR-FACECAM'. No UVC interface is exposed and no \
                /dev/video node is created. The device must be moved to a USB 3.0 port.",
            affected: QuirkScope::Product(ElgatoProduct::FacecamUsb2Fallback),
            severity: QuirkSeverity::Critical,
            mitigation: QuirkMitigation::Manual("Move the camera to a USB 3.0 (blue) port"),
        },
        Quirk {
            id: "USB3_REQUIRED",
            summary: "Device requires USB 3.0 SuperSpeed",
            description: "The Facecam will not enumerate on USB 2.0 ports. YUYV 1080p60 \
                requires ~249 MB/s bandwidth which exceeds USB 2.0 High-Speed (60 MB/s). \
                USB topology must be validated during probe.",
            affected: QuirkScope::AllFirmware,
            severity: QuirkSeverity::Critical,
            mitigation: QuirkMitigation::Manual("Connect to a USB 3.0 port directly, avoid hubs"),
        },
        Quirk {
            id: "BANDWIDTH_STARVATION",
            summary: "USB hub/dock sharing can cause frame drops or freezing",
            description: "At ~249 MB/s for YUYV 1080p60, the Facecam uses a significant \
                fraction of USB 3.0 bandwidth. Sharing a controller with other high-bandwidth \
                devices causes instability. MJPEG mode (firmware 4.00+) reduces bandwidth.",
            affected: QuirkScope::AllFirmware,
            severity: QuirkSeverity::Warning,
            mitigation: QuirkMitigation::ForceFormat(PixelFormat::Mjpeg),
        },
        Quirk {
            id: "YUYV_UYVY_AMBIGUITY",
            summary: "Wire format may be UYVY despite V4L2 reporting YUYV",
            description: "Community workarounds use uyvy422 as ffmpeg input format even though \
                v4l2-ctl reports YUYV. The actual byte order on the wire should be verified \
                by inspecting frame data. If the first two bytes of a white pixel are \
                0x80 0xEB, it's YUYV; if 0xEB 0x80, it's UYVY.",
            affected: QuirkScope::AllFirmware,
            severity: QuirkSeverity::Info,
            mitigation: QuirkMitigation::Manual("Verify empirically via frame byte inspection"),
        },

    ]
}

/// Whether a quirk of the given scope applies to a device: scopes tied to
/// firmware or format concern the original Facecam only, a product scope
/// concerns exactly that product.
pub open spec fn scope_applies(scope: QuirkScope, product: ElgatoProduct, firmware: FirmwareVersion) -> bool {
    match scope {
        QuirkScope::AllFirmware => product == ElgatoProduct::Facecam,
        QuirkScope::FirmwareBelow(v) => product == ElgatoProduct::Facecam
            && version_below(firmware, v.major, v.minor),
        QuirkScope::Format(_) => product == ElgatoProduct::Facecam,
        QuirkScope::Product(p) => p == product,
    }
}

/// The quirks of the registry that apply to a device, in registry order.
pub open spec fn applicable_entries(product: ElgatoProduct, firmware: FirmwareVersion) -> Seq<Quirk> {
    registry_entries().filter(applies_to(product, firmware))
}

/// The predicate "this quirk applies to the device".
pub open spec fn applies_to(product: ElgatoProduct, firmware: FirmwareVersion) -> spec_fn(Quirk) -> bool {
    |q: Quirk| scope_applies(q.affected, product, firmware)
}

/// The global quirk registry — all known Facecam behaviors traceable to observations
pub fn quirk_registry() -> (r: Vec<Quirk>)
    ensures
        r@ == registry_entries(),
{
    vec![
        Quirk {
            id: "BOGUS_NV12",
            summary: "NV12 format advertised but produces garbage frames",
            description: "The Facecam USB descriptor advertises NV12 (Y/CbCr 4:2:0) as a \
                supported format, but streaming in NV12 produces green or empty frames. \
                Only YUYV produces valid uncompressed output.",
            affected: QuirkScope::Format(PixelFormat::Nv12),
            severity: QuirkSeverity::Error,
            mitigation: QuirkMitigation::SkipFormat(PixelFormat::Nv12),
        },
        Quirk {
            id: "BOGUS_YU12",
            summary: "YU12 format advertised but produces garbage frames",
            description: "The Facecam USB descriptor advertises YU12 (Planar YUV 4:2:0) as a \
                supported format, but streaming in YU12 produces green or empty frames. \
                Only YUYV produces valid uncompressed output.",
            affected: QuirkScope::Format(PixelFormat::Yu12),
            severity: QuirkSeverity::Error,
            mitigation: QuirkMitigation::SkipFormat(PixelFormat::Yu12),
        },
        Quirk {
            id: "OPEN_CLOSE_LOCKUP",
            summary: "Device locks up after consumer close/reopen cycle",
            description: "After the first application closes the V4L2 device, subsequent opens \
                fail with EBUSY or produce no frames. The device requires a USB reset \
                (sysfs authorized flag cycle) to recover. The v4l2loopback normalization \
                pipeline mitigates this by keeping a single long-lived producer.",
            affected: QuirkScope::AllFirmware,
            severity: QuirkSeverity::Critical,
            mitigation: QuirkMitigation::NormalizationPipeline,
        },
        Quirk {
            id: "STARTUP_UNRELIABILITY",
            summary: "~50% failure rate on initial stream start",
            description: "The Facecam fails to initialize the video stream approximately half \
                the time on first open. A USB reset followed by retry resolves this. \
                The daemon must implement retry-with-reset logic.",
            affected: QuirkScope::AllFirmware,
            severity: QuirkSeverity::Error,
            mitigation: QuirkMitigation::UsbReset,
        },
        Quirk {
            id: "NO_MJPEG_OLD_FW",
            summary: "No MJPEG support on firmware < 4.00",
            description: "Firmware versions below 4.00 only support uncompressed formats. \
                Chromium-based browsers require MJPEG or cannot negotiate the camera. \
                The v4l2loopback pipeline resolves this by presenting a normalized output.",
            affected: QuirkScope::FirmwareBelow(FirmwareVersion { major: 4, minor: 0 }),
            severity: QuirkSeverity::Warning,
            mitigation: QuirkMitigation::NormalizationPipeline,
        },
        Quirk {
            id: "CHROMIUM_FORMAT_REJECT",
            summary: "Chromium rejects devices with both CAPTURE and OUTPUT caps",
            description: "Chromium-based browsers refuse to use V4L2 devices that report both \
                V4L2_CAP_VIDEO_CAPTURE and V4L2_CAP_VIDEO_OUTPUT in their capabilities. \
                v4l2loopback with exclusive_caps=1 resolves this.",
            affected: QuirkScope::AllFirmware,
            severity: QuirkSeverity::Error,
            mitigation: QuirkMitigation::NormalizationPipeline,
        },
        Quirk {
            id: "USB2_FALLBACK_MODE",
            summary: "Facecam presents PID 0x0077 on USB 2.0 with no video capability",
            description: "When connected to a USB 2.0 port, the Facecam enumerates with \
                PID 0x0077 instead of 0x0078 and a product string of \
                'USB3-REQUIRED-FOR-FACECAM'. No UVC interface is exposed and no \
                /dev/video node is created. The device must be moved to a USB 3.0 port.",
            affected: QuirkScope::Product(ElgatoProduct::FacecamUsb2Fallback),
            severity: QuirkSeverity::Critical,
            mitigation: QuirkMitigation::Manual("Move the camera to a USB 3.0 (blue) port"),
        },
        Quirk {
            id: "USB3_REQUIRED",
            summary: "Device requires USB 3.0 SuperSpeed",
            description: "The Facecam will not enumerate on USB 2.0 ports. YUYV 1080p60 \
                requires ~249 MB/s bandwidth which exceeds USB 2.0 High-Speed (60 MB/s). \
                USB topology must be validated during probe.",
            affected: QuirkScope::AllFirmware,
            severity: QuirkSeverity::Critical,
            mitigation: QuirkMitigation::Manual("Connect to a USB 3.0 port directly, avoid hubs"),
        },
        Quirk {
            id: "BANDWIDTH_STARVATION",
            summary: "USB hub/dock sharing can cause frame drops or freezing",
            description: "At ~249 MB/s for YUYV 1080p60, the Facecam uses a significant \
                fraction of USB 3.0 bandwidth. Sharing a controller with other high-bandwidth \
                devices causes instability. MJPEG mode (firmware 4.00+) reduces bandwidth.",
            affected: QuirkScope::AllFirmware,
            severity: QuirkSeverity::Warning,
            mitigation: QuirkMitigation::ForceFormat(PixelFormat::Mjpeg),
        },
        Quirk {
            id: "YUYV_UYVY_AMBIGUITY",
            summary: "Wire format may be UYVY despite V4L2 reporting YUYV",
            description: "Community workarounds use uyvy422 as ffmpeg input format even though \
                v4l2-ctl reports YUYV. The actual byte order on the wire should be verified \
                by inspecting frame data. If the first two bytes of a white pixel are \
                0x80 0xEB, it's YUYV; if 0xEB 0x80, it's UYVY.",
            affected: QuirkScope::AllFirmware,
            severity: QuirkSeverity::Info,
            mitigation: QuirkMitigation::Manual("Verify empirically via frame byte inspection"),
        },

    ]
}

/// Whether a quirk scope applies to the given device.
fn scope_matches(scope: &QuirkScope, product: ElgatoProduct, firmware: FirmwareVersion) -> (r: bool)
    ensures
        r == scope_applies(*scope, product, firmware),
{
    match scope {
        QuirkScope::AllFirmware => product.is_facecam_original(),
        QuirkScope::FirmwareBelow(v) => product.is_facecam_original() && firmware.is_below(v),
        QuirkScope::Format(_) => product.is_facecam_original(),
        QuirkScope::Product(p) => *p == product,
    }
}

/// Check which quirks apply to a specific device
pub fn applicable_quirks(product: ElgatoProduct, firmware: FirmwareVersion) -> (r: Vec<Quirk>)
    ensures
        r@ == applicable_entries(product, firmware),
{
    let registry = quirk_registry();
    let ghost pred = applies_to(product, firmware);
    let mut selected: Vec<Quirk> = Vec::new();
    let mut i: usize = 0;
    while i < registry.len()
        invariant
            i <= registry.len(),
            registry@ == registry_entries(),
            pred == applies_to(product, firmware),
            selected@ == registry@.take(i as int).filter(pred),
        decreases registry.len() - i,
    {
        let q = registry[i];
        proof {
            assert(registry@.take(i + 1) =~= registry@.take(i as int).push(q));
            registry@.take(i as int).lemma_filter_push(q, pred);
        }
        let m = scope_matches(&q.affected, product, firmware);
        assert(m == pred(q));
        if m {
            selected.push(q);
        }
        i = i + 1;
    }
    assert(registry@.take(i as int) =~= registry@);
    selected
}

/// Every quirk in the registry has its own identifier.
pub proof fn lemma_registry_ids_distinct()
    ensures
        forall|i: int, j: int|
            0 <= i < j < registry_entries().len() ==> registry_entries()[i].id@
                != registry_entries()[j].id@,
{
    reveal_strlit("BOGUS_NV12");
    reveal_strlit("BOGUS_YU12");
    reveal_strlit("OPEN_CLOSE_LOCKUP");
    reveal_strlit("STARTUP_UNRELIABILITY");
    reveal_strlit("NO_MJPEG_OLD_FW");
    reveal_strlit("CHROMIUM_FORMAT_REJECT");
    reveal_strlit("USB2_FALLBACK_MODE");
    reveal_strlit("USB3_REQUIRED");
    reveal_strlit("BANDWIDTH_STARVATION");
    reveal_strlit("YUYV_UYVY_AMBIGUITY");
    let e = registry_entries();
    assert(e[0].id@.len() == 10);
    assert(e[1].id@.len() == 10);
    assert(e[2].id@.len() == 17);
    assert(e[3].id@.len() == 21);
    assert(e[4].id@.len() == 15);
    assert(e[5].id@.len() == 22);
    assert(e[6].id@.len() == 18);
    assert(e[7].id@.len() == 13);
    assert(e[8].id@.len() == 20);
    assert(e[9].id@.len() == 19);
    assert(e[0].id@[6] != e[1].id@[6]);
    assert forall|i: int, j: int| 0 <= i < j < e.len() implies e[i].id@ != e[j].id@ by {
        if i == 0 && j == 1 {
            assert(e[i].id@[6] != e[j].id@[6]);
        } else {
            assert(e[i].id@.len() != e[j].id@.len());
        }
    }
}

/// The registry's ten quirks, each with its severity and mitigation:
/// BOGUS_NV12 and BOGUS_YU12 are errors that skip their format,
/// OPEN_CLOSE_LOCKUP is critical and mitigated by the normalization
/// pipeline, STARTUP_UNRELIABILITY is an error mitigated by a USB reset,
/// NO_MJPEG_OLD_FW is a warning and CHROMIUM_FORMAT_REJECT an error, both
/// mitigated by the normalization pipeline, USB2_FALLBACK_MODE and
/// USB3_REQUIRED are critical with manual mitigations, BANDWIDTH_STARVATION
/// is a warning that forces MJPEG, and YUYV_UYVY_AMBIGUITY is informational
/// with a manual check. The critical quirks are exactly OPEN_CLOSE_LOCKUP,
/// USB2_FALLBACK_MODE and USB3_REQUIRED.
pub proof fn lemma_registry_severities()
    ensures
        registry_entries().map_values(|q: Quirk| q.id@) == seq![
            "BOGUS_NV12"@, "BOGUS_YU12"@, "OPEN_CLOSE_LOCKUP"@, "STARTUP_UNRELIABILITY"@,
            "NO_MJPEG_OLD_FW"@, "CHROMIUM_FORMAT_REJECT"@, "USB2_FALLBACK_MODE"@, "USB3_REQUIRED"@,
            "BANDWIDTH_STARVATION"@, "YUYV_UYVY_AMBIGUITY"@,
        ],
        forall|i: int| 0 <= i < registry_entries().len() ==> {
            let q = #[trigger] registry_entries()[i];
            &&& q.id@ == "BOGUS_NV12"@ ==> q.severity == QuirkSeverity::Error
                && q.mitigation == QuirkMitigation::SkipFormat(PixelFormat::Nv12)
            &&& q.id@ == "BOGUS_YU12"@ ==> q.severity == QuirkSeverity::Error
                && q.mitigation == QuirkMitigation::SkipFormat(PixelFormat::Yu12)
            &&& q.id@ == "OPEN_CLOSE_LOCKUP"@ ==> q.severity == QuirkSeverity::Critical
                && q.mitigation == QuirkMitigation::NormalizationPipeline
            &&& q.id@ == "STARTUP_UNRELIABILITY"@ ==> q.severity == QuirkSeverity::Error
                && q.mitigation == QuirkMitigation::UsbReset
            &&& q.id@ == "NO_MJPEG_OLD_FW"@ ==> q.severity == QuirkSeverity::Warning
                && q.mitigation == QuirkMitigation::NormalizationPipeline
            &&& q.id@ == "CHROMIUM_FORMAT_REJECT"@ ==> q.severity == QuirkSeverity::Error
                && q.mitigation == QuirkMitigation::NormalizationPipeline
            &&& q.id@ == "USB2_FALLBACK_MODE"@ ==> q.severity == QuirkSeverity::Critical
                && (q.mitigation matches QuirkMitigation::Manual(t) && t@ == "Move the camera to a USB 3.0 (blue) port"@)
            &&& q.id@ == "USB3_REQUIRED"@ ==> q.severity == QuirkSeverity::Critical
                && (q.mitigation matches QuirkMitigation::Manual(t) && t@ == "Connect to a USB 3.0 port directly, avoid hubs"@)
            &&& q.id@ == "BANDWIDTH_STARVATION"@ ==> q.severity == QuirkSeverity::Warning
                && q.mitigation == QuirkMitigation::ForceFormat(PixelFormat::Mjpeg)
            &&& q.id@ == "YUYV_UYVY_AMBIGUITY"@ ==> q.severity == QuirkSeverity::Info
                && (q.mitigation matches QuirkMitigation::Manual(t) && t@ == "Verify empirically via frame byte inspection"@)
            &&& (q.severity == QuirkSeverity::Critical) == (q.id@ == "OPEN_CLOSE_LOCKUP"@
                || q.id@ == "USB2_FALLBACK_MODE"@ || q.id@ == "USB3_REQUIRED"@)
        },
{
    lemma_registry_ids_distinct();
    let e = registry_entries();
    assert(e.map_values(|q: Quirk| q.id@) =~= seq![
            "BOGUS_NV12"@, "BOGUS_YU12"@, "OPEN_CLOSE_LOCKUP"@, "STARTUP_UNRELIABILITY"@,
            "NO_MJPEG_OLD_FW"@, "CHROMIUM_FORMAT_REJECT"@, "USB2_FALLBACK_MODE"@, "USB3_REQUIRED"@,
            "BANDWIDTH_STARVATION"@, "YUYV_UYVY_AMBIGUITY"@,
        ]);
}

/// A quirk whose mitigation skips a format is scoped to that same format.
pub proof fn lemma_skip_mitigation_matches_scope()
    ensures
        forall|i: int|
            0 <= i < registry_entries().len() ==> match #[trigger] registry_entries()[i].mitigation {
                QuirkMitigation::SkipFormat(f) => registry_entries()[i].affected
                    == QuirkScope::Format(f),
                _ => true,
            },
{
}

/// Every quirk that applies to a device is a registry entry whose scope
/// applies to that device.
pub proof fn lemma_applicable_are_registry_entries(product: ElgatoProduct, firmware: FirmwareVersion)
    ensures
        forall|i: int|
            0 <= i < applicable_entries(product, firmware).len() ==> {
                &&& registry_entries().contains(#[trigger] applicable_entries(product, firmware)[i])
                &&& scope_applies(applicable_entries(product, firmware)[i].affected, product, firmware)
            },
{
    let pred = applies_to(product, firmware);
    assert forall|i: int| 0 <= i < applicable_entries(product, firmware).len() implies {
        &&& registry_entries().contains(#[trigger] applicable_entries(product, firmware)[i])
        &&& scope_applies(applicable_entries(product, firmware)[i].affected, product, firmware)
    } by {
        registry_entries().lemma_filter_pred(pred, i);
        registry_entries().lemma_filter_contains_rev(pred, applicable_entries(product, firmware)[i]);
    }
}

/// No quirk applies to an Elgato product other than the original Facecam
/// and its USB 2.0 fallback identity.
pub proof fn lemma_no_quirks_for_other_products(product: ElgatoProduct, firmware: FirmwareVersion)
    requires
        product != ElgatoProduct::Facecam,
        product != ElgatoProduct::FacecamUsb2Fallback,
    ensures
        applicable_entries(product, firmware).len() == 0,
{
    reveal_with_fuel(Seq::filter, 11);
    assert(registry_entries().drop_last().drop_last().drop_last().drop_last().drop_last()
        .drop_last().drop_last().drop_last().drop_last().drop_last().len() == 0);
}

/// A Facecam in USB 2.0 fallback mode has exactly one quirk: the
/// fallback-mode quirk.
pub proof fn lemma_fallback_has_only_fallback_quirk(firmware: FirmwareVersion)
    ensures
        applicable_entries(ElgatoProduct::FacecamUsb2Fallback, firmware) == seq![registry_entries()[6]],
{
    reveal_with_fuel(Seq::filter, 11);
    assert(applicable_entries(ElgatoProduct::FacecamUsb2Fallback, firmware) =~= seq![registry_entries()[6]]);
}

/// For the original Facecam every quirk applies except the USB 2.0
/// fallback quirk, and the old-firmware MJPEG quirk applies exactly when
/// the firmware lacks MJPEG support.
pub proof fn lemma_facecam_quirks(firmware: FirmwareVersion)
    ensures
        applicable_entries(ElgatoProduct::Facecam, firmware) == if version_at_least(firmware, 4, 0) {
            seq![registry_entries()[0], registry_entries()[1], registry_entries()[2],
                registry_entries()[3], registry_entries()[5], registry_entries()[7],
                registry_entries()[8], registry_entries()[9]]
        } else {
            seq![registry_entries()[0], registry_entries()[1], registry_entries()[2],
                registry_entries()[3], registry_entries()[4], registry_entries()[5],
                registry_entries()[7], registry_entries()[8], registry_entries()[9]]
        },
{
    reveal_with_fuel(Seq::filter, 11);
    if version_at_least(firmware, 4, 0) {
        assert(applicable_entries(ElgatoProduct::Facecam, firmware) =~= seq![registry_entries()[0], registry_entries()[1], registry_entries()[2],
                registry_entries()[3], registry_entries()[5], registry_entries()[7],
                registry_entries()[8], registry_entries()[9]]);
    } else {
        assert(applicable_entries(ElgatoProduct::Facecam, firmware) =~= seq![registry_entries()[0], registry_entries()[1], registry_entries()[2],
                registry_entries()[3], registry_entries()[4], registry_entries()[5],
                registry_entries()[7], registry_entries()[8], registry_entries()[9]]);
    }
}

} // verus!

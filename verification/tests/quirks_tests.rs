use facecam::device::{ElgatoProduct, FirmwareVersion};
use facecam::formats::PixelFormat;
use facecam::quirks::{applicable_quirks, quirk_registry, QuirkMitigation, QuirkScope, QuirkSeverity};

fn ids(product: ElgatoProduct, fw: FirmwareVersion) -> Vec<&'static str> {
    applicable_quirks(product, fw).iter().map(|q| q.id).collect()
}

#[test]
fn registry_has_ten_distinct_quirks() {
    let reg = quirk_registry();
    assert_eq!(reg.len(), 10);
    let mut seen: Vec<&str> = reg.iter().map(|q| q.id).collect();
    seen.sort();
    seen.dedup();
    assert_eq!(seen.len(), 10);
    assert_eq!(reg[0].id, "BOGUS_NV12");
    assert_eq!(reg[2].severity, QuirkSeverity::Critical);
    assert!(matches!(reg[0].mitigation, QuirkMitigation::SkipFormat(PixelFormat::Nv12)));
    assert!(matches!(reg[4].affected, QuirkScope::FirmwareBelow(FirmwareVersion { major: 4, minor: 0 })));
    assert_eq!(reg[4].summary, "No MJPEG support on firmware < 4.00");
}

#[test]
fn skip_mitigation_matches_scope() {
    for q in quirk_registry() {
        if let QuirkMitigation::SkipFormat(f) = q.mitigation {
            assert!(matches!(q.affected, QuirkScope::Format(g) if g == f));
        }
    }
}

#[test]
fn facecam_on_new_firmware() {
    let got = ids(ElgatoProduct::Facecam, FirmwareVersion { major: 4, minor: 9 });
    assert_eq!(
        got,
        vec![
            "BOGUS_NV12",
            "BOGUS_YU12",
            "OPEN_CLOSE_LOCKUP",
            "STARTUP_UNRELIABILITY",
            "CHROMIUM_FORMAT_REJECT",
            "USB3_REQUIRED",
            "BANDWIDTH_STARVATION",
            "YUYV_UYVY_AMBIGUITY",
        ]
    );
}

#[test]
fn facecam_on_old_firmware_lacks_mjpeg() {
    let fw = FirmwareVersion { major: 3, minor: 99 };
    assert!(!fw.has_mjpeg());
    let got = ids(ElgatoProduct::Facecam, fw);
    assert_eq!(got.len(), 9);
    assert!(got.contains(&"NO_MJPEG_OLD_FW"));
    let got = ids(ElgatoProduct::Facecam, FirmwareVersion { major: 4, minor: 0 });
    assert!(!got.contains(&"NO_MJPEG_OLD_FW"));
}

#[test]
fn fallback_has_only_fallback_quirk() {
    let got = ids(ElgatoProduct::FacecamUsb2Fallback, FirmwareVersion { major: 1, minor: 0 });
    assert_eq!(got, vec!["USB2_FALLBACK_MODE"]);
}

#[test]
fn other_products_have_no_quirks() {
    for p in [ElgatoProduct::FacecamPro, ElgatoProduct::CamLink4K, ElgatoProduct::Unknown(1)] {
        assert!(applicable_quirks(p, FirmwareVersion { major: 0, minor: 0 }).is_empty());
    }
}

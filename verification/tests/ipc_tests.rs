use facecam::fuzz::fuzz_device;
use facecam::ipc::{socket_path, DaemonCommand, DaemonResponse};

#[test]
fn socket_location() {
    assert_eq!(socket_path(Some("/run/user/1000")), "/run/user/1000/facecam-daemon.sock");
    assert_eq!(socket_path(None), "/tmp/facecam-daemon.sock");
}

#[test]
fn messages_carry_their_fields() {
    let c = DaemonCommand::SetControl { name: "brightness".to_string(), value: 150 };
    match c.clone() {
        DaemonCommand::SetControl { name, value } => assert_eq!((name.as_str(), value), ("brightness", 150)),
        _ => unreachable!(),
    }
    let r = DaemonResponse::ControlValue { name: "contrast".to_string(), value: 3 };
    assert!(matches!(r, DaemonResponse::ControlValue { value: 3, .. }));
    assert!(matches!(DaemonResponse::Succeeded(None), DaemonResponse::Succeeded(None)));
}

#[test]
fn fuzz_device_accepts_any_input() {
    assert_eq!(fuzz_device(&[]), None);
    assert_eq!(fuzz_device(&[0x78, 0x00, 0x09]), None);
    assert_eq!(fuzz_device(&[0x78, 0x00, 0x09, 0x04]), Some(()));
    assert_eq!(fuzz_device(&[0x78, 0x00, 0x09, 0x03, 0x00]), Some(()));
    assert_eq!(fuzz_device(&[0xff, 0xff, 0xff, 0xff, 0x01, 9]), Some(()));
}

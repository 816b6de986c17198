use facecam::config::{config_path, default_card_label, default_frame_timeout, default_log_dir, default_max_events, default_max_openers, default_max_recovery, default_video_nr, DaemonConfig, LoopbackConfig};

#[test]
fn documented_defaults() {
    assert_eq!(default_max_recovery(), 5);
    assert_eq!(default_frame_timeout(), 5000);
    assert_eq!(default_video_nr(), 10);
    assert_eq!(default_card_label(), "Facecam Normalized");
    assert_eq!(default_max_openers(), 10);
    assert_eq!(default_max_events(), 1000);
    assert_eq!(default_log_dir(Some("/home/u")), "/home/u/.local/share/facecam/logs");
    assert_eq!(default_log_dir(None), "/tmp/.local/share/facecam/logs");
    let l = LoopbackConfig::default();
    assert_eq!((l.video_nr, l.card_label.as_str(), l.max_openers), (10, "Facecam Normalized", 10));
    let c = DaemonConfig::for_home(Some("/h"));
    assert_eq!(c.max_recovery_attempts, 5);
    assert_eq!(c.frame_timeout_ms, 5000);
    assert_eq!(c.logging.log_dir, "/h/.local/share/facecam/logs");
    assert_eq!(c.logging.max_events, 1000);
}

#[test]
fn config_location() {
    assert_eq!(config_path(Some("/etc/d.toml"), Some("/h")), "/etc/d.toml");
    assert_eq!(config_path(None, Some("/h")), "/h/.config/facecam/daemon.toml");
    assert_eq!(config_path(None, None), "/tmp/.config/facecam/daemon.toml");
}

use facecam::profiles::{create_default_profiles, default_format, default_profiles, profile_file_path, profile_names, profiles_dir, defaults_to_create};

#[test]
fn profile_directory() {
    assert_eq!(profiles_dir(Some("/etc/facecam"), Some("/home/u")), "/etc/facecam/profiles");
    assert_eq!(profiles_dir(None, Some("/home/u")), "/home/u/.config/facecam/profiles");
    assert_eq!(profiles_dir(None, Some("/home/u/")), "/home/u/.config/facecam/profiles");
    assert_eq!(profiles_dir(None, None), "/tmp/.config/facecam/profiles");
    assert_eq!(profiles_dir(Some(""), None), "profiles");
}

#[test]
fn profile_paths() {
    assert_eq!(profile_file_path("/p", "streaming"), "/p/streaming.toml");
    assert_eq!(profile_file_path("/p/", "a"), "/p/a.toml");
    assert_eq!(profile_file_path("/p", "/abs/x"), "/abs/x.toml");
    assert_eq!(default_format(), "YUYV");
}

#[test]
fn listing_profiles() {
    let names: Vec<String> = ["zoom.toml", "b.txt", ".toml", "a.toml", "notes", "..toml", "default.toml", "x.TOML"]
        .iter()
        .map(|s| s.to_string())
        .collect();
    assert_eq!(profile_names(&names), vec![".", "a", "default", "zoom"]);
    assert!(profile_names(&vec![]).is_empty());
}

#[test]
fn default_profile_set() {
    let d = default_profiles();
    let names: Vec<&str> = d.iter().map(|p| p.name.as_str()).collect();
    assert_eq!(names, vec!["default", "streaming", "lowlight", "meeting"]);
    let streaming = &d[1];
    let mode = streaming.video_mode.as_ref().unwrap();
    assert_eq!((mode.width, mode.height, mode.fps, mode.format.as_str()), (1920, 1080, 60, "MJPG"));
    assert_eq!(streaming.controls[0], ("brightness".to_string(), 140));
    assert_eq!(d[2].controls.last().unwrap(), &("exposure_absolute".to_string(), 500));
    assert_eq!(d[3].controls.len(), 6);
}

#[test]
fn default_profiles_respect_device_ranges() {
    for p in default_profiles() {
        let mut names: Vec<&str> = p.controls.iter().map(|c| c.0.as_str()).collect();
        names.sort();
        names.dedup();
        assert_eq!(names.len(), p.controls.len());
        for (name, v) in &p.controls {
            let ok = match name.as_str() {
                "brightness" => (0..=255).contains(v),
                "contrast" => (0..=10).contains(v),
                "saturation" => (0..=63).contains(v),
                "sharpness" => (0..=4).contains(v),
                "white_balance_temperature_auto" => (0..=1).contains(v),
                "power_line_frequency" => (0..=2).contains(v),
                "auto_exposure" => *v == 0 || *v == 2,
                "exposure_absolute" => (1..=2500).contains(v),
                _ => false,
            };
            assert!(ok, "{} = {}", name, v);
        }
        let m = p.video_mode.unwrap();
        assert!(m.format == "UYVY" || m.format == "MJPG");
        assert!(m.fps == 30 || m.fps == 60);
    }
}

#[test]
fn default_profiles_with_paths() {
    let plan = create_default_profiles("/cfg/profiles");
    assert_eq!(plan.len(), 4);
    assert_eq!(plan[0].0, "/cfg/profiles/default.toml");
    assert_eq!(plan[3].0, "/cfg/profiles/meeting.toml");
    assert_eq!(plan[3].1.name, "meeting");
}

#[test]
fn only_missing_defaults_are_created() {
    let all = defaults_to_create("/cfg/profiles", &[false, false, false, false]);
    let names: Vec<&str> = all.iter().map(|(_, p)| p.name.as_str()).collect();
    assert_eq!(names, vec!["default", "streaming", "lowlight", "meeting"]);
    let some = defaults_to_create("/cfg/profiles", &[true, false, true, false]);
    let got: Vec<(&str, &str)> = some.iter().map(|(path, p)| (path.as_str(), p.name.as_str())).collect();
    assert_eq!(got, vec![("/cfg/profiles/streaming.toml", "streaming"), ("/cfg/profiles/meeting.toml", "meeting")]);
    assert!(defaults_to_create("/cfg/profiles", &[true, true, true, true]).is_empty());
    // A shorter existence list counts the rest as missing.
    assert_eq!(defaults_to_create("/cfg/profiles", &[true]).len(), 3);
}

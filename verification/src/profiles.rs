//! Camera control profiles: the profile model, where profiles are stored,
//! the default profile set, and listing of stored profiles.
use vstd::prelude::*;
use vstd::string::*;
use crate::order::{sort_texts, text_le, texts, texts_sorted};
use crate::text::{join_path, path_join};

verus! {

/// Preferred video mode of a profile.
#[derive(Debug, Clone)]
pub struct ProfileVideoMode {
    pub width: u32,
    pub height: u32,
    pub fps: u32,
    /// Preferred pixel format (defaults to YUYV)
    pub format: String,
}

/// A named camera control profile
#[derive(Debug, Clone)]
pub struct Profile {
    pub name: String,
    pub description: String,
    /// Preferred video mode (if unset, daemon picks best available)
    pub video_mode: Option<ProfileVideoMode>,
    /// Control values to apply when this profile is activated, one entry
    /// per control name
    pub controls: Vec<(String, i64)>,
}

/// The contents of a video mode.
#[verifier::ext_equal]
pub struct VideoModeView {
    pub width: u32,
    pub height: u32,
    pub fps: u32,
    pub format: Seq<char>,
}

/// The contents of a profile.
#[verifier::ext_equal]
pub struct ProfileView {
    pub name: Seq<char>,
    pub description: Seq<char>,
    pub video_mode: Option<VideoModeView>,
    pub controls: Seq<(Seq<char>, i64)>,
}

impl View for ProfileVideoMode {
    type V = VideoModeView;

    open spec fn view(&self) -> VideoModeView {
        VideoModeView { width: self.width, height: self.height, fps: self.fps, format: self.format@ }
    }
}

impl View for Profile {
    type V = ProfileView;

    open spec fn view(&self) -> ProfileView {
        ProfileView {
            name: self.name@,
            description: self.description@,
            video_mode: match self.video_mode {
                Some(m) => Some(m@),
                None => None,
            },
            controls: self.controls@.map_values(|c: (String, i64)| (c.0@, c.1)),
        }
    }
}

/// No control name occurs twice in a profile.
pub open spec fn controls_distinct(controls: Seq<(Seq<char>, i64)>) -> bool {
    forall|i: int, j: int| 0 <= i < j < controls.len() ==> #[trigger] controls[i].0 != #[trigger] controls[j].0
}

impl Profile {
    /// A well-formed profile holds one entry per control name; every
    /// function of this library that builds a profile ensures it.
    pub open spec fn wf(&self) -> bool {
        controls_distinct(self@.controls)
    }
}

/// The pixel format a video mode uses when a profile names none.
pub fn default_format() -> (r: String)
    ensures
        r@ == "YUYV"@,
{
    String::from_str("YUYV")
}

/// Base configuration directory: `FACECAM_CONFIG_DIR` when set, else
/// `$HOME/.config/facecam` (with `/tmp` standing in for an unset `HOME`).
pub open spec fn config_dir(config_dir_env: Option<Seq<char>>, home_env: Option<Seq<char>>) -> Seq<char> {
    match config_dir_env {
        Some(dir) => dir,
        None => {
            let home = match home_env { Some(h) => h, None => "/tmp"@ };
            path_join(path_join(home, ".config"@), "facecam"@)
        },
    }
}

pub open spec fn opt_view(s: Option<&str>) -> Option<Seq<char>> {
    match s { Some(t) => Some(t@), None => None }
}

/// Base configuration directory, from the values of the
/// `FACECAM_CONFIG_DIR` and `HOME` environment variables.
fn dirs_path(config_dir_env: Option<&str>, home_env: Option<&str>) -> (r: String)
    ensures
        r@ == config_dir(opt_view(config_dir_env), opt_view(home_env)),
{
    if let Some(dir) = config_dir_env {
        return String::from_str(dir);
    }
    let home = match home_env { Some(h) => h, None => "/tmp" };
    let config = join_path(home, ".config");
    join_path(config.as_str(), "facecam")
}

/// Profile storage directory, from the values of the `FACECAM_CONFIG_DIR`
/// and `HOME` environment variables.
pub fn profiles_dir(config_dir_env: Option<&str>, home_env: Option<&str>) -> (r: String)
    ensures
        r@ == path_join(config_dir(opt_view(config_dir_env), opt_view(home_env)), "profiles"@),
{
    let config_dir = dirs_path(config_dir_env, home_env);
    join_path(config_dir.as_str(), "profiles")
}

/// The file a profile is stored in: `<name>.toml` in the profile directory.
pub fn profile_file_path(dir: &str, name: &str) -> (r: String)
    ensures
        r@ == path_join(dir@, name@ + ".toml"@),
{
    let mut file = String::from_str(name);
    file.append(".toml");
    join_path(dir, file.as_str())
}

/// Whether a file name names a stored profile: it has the extension
/// `toml` (so it ends in `.toml` and has a non-empty stem).
pub open spec fn is_profile_file(name: Seq<char>) -> bool {
    name.len() > 5 && name.subrange(name.len() - 5, name.len() as int) == ".toml"@
}

/// The profile name a profile file stores: the file name without `.toml`.
pub open spec fn profile_stem(name: Seq<char>) -> Seq<char> {
    name.subrange(0, name.len() - 5)
}

/// The profile names among a directory's file names, in directory order.
pub open spec fn profile_stems(names: Seq<Seq<char>>) -> Seq<Seq<char>>
    decreases names.len(),
{
    if names.len() == 0 {
        Seq::empty()
    } else {
        let rest = profile_stems(names.drop_last());
        if is_profile_file(names.last()) { rest.push(profile_stem(names.last())) } else { rest }
    }
}

/// The stored profiles, from the file names of the profile directory:
/// the stems of the `.toml` files, sorted.
pub fn profile_names(file_names: &Vec<String>) -> (r: Vec<String>)
    ensures
        texts_sorted(texts(r@)),
        texts(r@).to_multiset() == profile_stems(texts(file_names@)).to_multiset(),
{
    let mut stems: Vec<String> = Vec::new();
    let mut i: usize = 0;
    while i < file_names.len()
        invariant
            i <= file_names@.len(),
            texts(stems@) == profile_stems(texts(file_names@.take(i as int))),
        decreases file_names.len() - i,
    {
        let name = file_names[i].as_str();
        let n = name.unicode_len();
        proof {
            assert(texts(file_names@.take(i + 1)).drop_last() =~= texts(file_names@.take(i as int)));
            assert(texts(file_names@.take(i + 1)).last() == name@);
        }
        if n > 5 {
            let ext = name.substring_char(n - 5, n);
            if crate::text::str_equal(ext, ".toml") {
                let stem = name.substring_char(0, n - 5);
                let ghost before = stems@;
                stems.push(String::from_str(stem));
                proof {
                    assert(texts(stems@) =~= texts(before).push(stem@));
                }
            }
        }
        i = i + 1;
    }
    assert(file_names@.take(i as int) =~= file_names@);
    sort_texts(stems)
}

/// A control setting.
fn control(name: &str, value: i64) -> (r: (String, i64))
    ensures
        r.0@ == name@,
        r.1 == value,
{
    (String::from_str(name), value)
}

/// The default profiles, based on empirical device testing.
pub open spec fn default_profile_views() -> Seq<ProfileView> {
    seq![
        ProfileView {
            name: "default"@,
            description: "Default settings — 1080p30, auto exposure, auto white balance"@,
            video_mode: Some(VideoModeView { width: 1920, height: 1080, fps: 30, format: "UYVY"@ }),
            controls: seq![
                ("brightness"@, 128i64),
                ("contrast"@, 3i64),
                ("saturation"@, 35i64),
                ("sharpness"@, 2i64),
                ("white_balance_temperature_auto"@, 1i64),
                ("auto_exposure"@, 0i64),
                ("power_line_frequency"@, 2i64)
            ],
        },
        ProfileView {
            name: "streaming"@,
            description: "Optimized for live streaming — 1080p60 MJPEG, balanced settings"@,
            video_mode: Some(VideoModeView { width: 1920, height: 1080, fps: 60, format: "MJPG"@ }),
            controls: seq![
                ("brightness"@, 140i64),
                ("contrast"@, 4i64),
                ("saturation"@, 40i64),
                ("sharpness"@, 2i64),
                ("white_balance_temperature_auto"@, 1i64),
                ("auto_exposure"@, 0i64),
                ("power_line_frequency"@, 2i64)
            ],
        },
        ProfileView {
            name: "lowlight"@,
            description: "Low light conditions — 720p30, higher brightness, manual exposure"@,
            video_mode: Some(VideoModeView { width: 1280, height: 720, fps: 30, format: "UYVY"@ }),
            controls: seq![
                ("brightness"@, 200i64),
                ("contrast"@, 2i64),
                ("saturation"@, 30i64),
                ("sharpness"@, 1i64),
                ("white_balance_temperature_auto"@, 1i64),
                ("auto_exposure"@, 2i64),
                ("exposure_absolute"@, 500i64)
            ],
        },
        ProfileView {
            name: "meeting"@,
            description: "Video conferencing — 720p30 MJPEG, bandwidth-friendly"@,
            video_mode: Some(VideoModeView { width: 1280, height: 720, fps: 30, format: "MJPG"@ }),
            controls: seq![
                ("brightness"@, 140i64),
                ("contrast"@, 3i64),
                ("saturation"@, 35i64),
                ("sharpness"@, 2i64),
                ("white_balance_temperature_auto"@, 1i64),
                ("auto_exposure"@, 0i64)
            ],
        }
    ]
}

fn default_profile_default() -> (p: Profile)
    ensures
        p@ == default_profile_views()[0],
        p.wf(),
{
    proof {
        lemma_default_controls_distinct();
    }
    let mut controls: Vec<(String, i64)> = Vec::new();
    controls.push(control("brightness", 128));
    controls.push(control("contrast", 3));
    controls.push(control("saturation", 35));
    controls.push(control("sharpness", 2));
    controls.push(control("white_balance_temperature_auto", 1));
    controls.push(control("auto_exposure", 0));  // Auto mode
    controls.push(control("power_line_frequency", 2)); // 60Hz
    let p = Profile {
        name: String::from_str("default"),
        description: String::from_str("Default settings — 1080p30, auto exposure, auto white balance"),
        video_mode: Some(ProfileVideoMode {
            width: 1920,
            height: 1080,
            fps: 30,
            format: String::from_str("UYVY"),
        }),
        controls,
    };
    assert(p@ =~= default_profile_views()[0]);
    p
}
fn default_profile_streaming() -> (p: Profile)
    ensures
        p@ == default_profile_views()[1],
        p.wf(),
{
    proof {
        lemma_default_controls_distinct();
    }
    let mut controls: Vec<(String, i64)> = Vec::new();
    controls.push(control("brightness", 140));
    controls.push(control("contrast", 4));
    controls.push(control("saturation", 40));
    controls.push(control("sharpness", 2));
    controls.push(control("white_balance_temperature_auto", 1));
    controls.push(control("auto_exposure", 0));
    controls.push(control("power_line_frequency", 2));
    let p = Profile {
        name: String::from_str("streaming"),
        description: String::from_str("Optimized for live streaming — 1080p60 MJPEG, balanced settings"),
        video_mode: Some(ProfileVideoMode {
            width: 1920,
            height: 1080,
            fps: 60,
            format: String::from_str("MJPG"),
        }),
        controls,
    };
    assert(p@ =~= default_profile_views()[1]);
    p
}
fn default_profile_lowlight() -> (p: Profile)
    ensures
        p@ == default_profile_views()[2],
        p.wf(),
{
    proof {
        lemma_default_controls_distinct();
    }
    let mut controls: Vec<(String, i64)> = Vec::new();
    controls.push(control("brightness", 200));
    controls.push(control("contrast", 2));
    controls.push(control("saturation", 30));
    controls.push(control("sharpness", 1));
    controls.push(control("white_balance_temperature_auto", 1));
    controls.push(control("auto_exposure", 2)); // Shutter priority
    controls.push(control("exposure_absolute", 500)); // ~1/20s for low light
    let p = Profile {
        name: String::from_str("lowlight"),
        description: String::from_str("Low light conditions — 720p30, higher brightness, manual exposure"),
        video_mode: Some(ProfileVideoMode {
            width: 1280,
            height: 720,
            fps: 30,
            format: String::from_str("UYVY"),
        }),
        controls,
    };
    assert(p@ =~= default_profile_views()[2]);
    p
}
fn default_profile_meeting() -> (p: Profile)
    ensures
        p@ == default_profile_views()[3],
        p.wf(),
{
    proof {
        lemma_default_controls_distinct();
    }
    let mut controls: Vec<(String, i64)> = Vec::new();
    controls.push(control("brightness", 140));
    controls.push(control("contrast", 3));
    controls.push(control("saturation", 35));
    controls.push(control("sharpness", 2));
    controls.push(control("white_balance_temperature_auto", 1));
    controls.push(control("auto_exposure", 0));
    let p = Profile {
        name: String::from_str("meeting"),
        description: String::from_str("Video conferencing — 720p30 MJPEG, bandwidth-friendly"),
        video_mode: Some(ProfileVideoMode {
            width: 1280,
            height: 720,
            fps: 30,
            format: String::from_str("MJPG"),
        }),
        controls,
    };
    assert(p@ =~= default_profile_views()[3]);
    p
}

/// Default profiles based on empirical device testing.
///
/// Confirmed control ranges (firmware 4.09):
///   brightness: 0-255 (default 128)
///   contrast: 0-10 (default 3)
///   saturation: 0-63 (default 35)
///   sharpness: 0-4 (default 2)
///   white_balance_temperature_auto: bool (default 1)
///   white_balance_temperature: 2800-12500 step 100 (default 5000)
///   power_line_frequency: menu 0=off,1=50Hz,2=60Hz (default 2)
///   auto_exposure: menu 0=auto,2=shutter_priority (default 0)
///   exposure_absolute: 1-2500 in 100us units (default 156 = 1/64s)
///   zoom_absolute: 1-31 (default 1)
///
/// Actual pixel format is UYVY (not YUYV). MJPEG also available.
pub fn default_profiles() -> (r: Vec<Profile>)
    ensures
        r@.len() == 4,
        forall|i: int| 0 <= i < 4 ==> #[trigger] r@[i]@ == default_profile_views()[i],
        forall|i: int| 0 <= i < 4 ==> (#[trigger] r@[i]).wf(),
{
    proof {
        lemma_default_controls_distinct();
    }
    let mut r: Vec<Profile> = Vec::new();
    r.push(default_profile_default());
    r.push(default_profile_streaming());
    r.push(default_profile_lowlight());
    r.push(default_profile_meeting());
    r
}

/// A profile paired with the file it is stored in within `dir`.
fn stored_at(dir: &str, profile: Profile) -> (r: (String, Profile))
    ensures
        r.0@ == path_join(dir@, profile.name@ + ".toml"@),
        r.1 == profile,
{
    let path = profile_file_path(dir, profile.name.as_str());
    (path, profile)
}

/// The default profiles to create, each with the file it is stored in
/// within `dir`. The caller writes those whose file does not exist yet.
pub fn create_default_profiles(dir: &str) -> (r: Vec<(String, Profile)>)
    ensures
        r@.len() == 4,
        forall|i: int| 0 <= i < 4 ==> {
            &&& (#[trigger] r@[i]).1@ == default_profile_views()[i]
            &&& r@[i].0@ == path_join(dir@, default_profile_views()[i].name + ".toml"@)
            &&& r@[i].1.wf()
        },
{
    proof {
        lemma_default_controls_distinct();
    }
    let mut r: Vec<(String, Profile)> = Vec::new();
    r.push(stored_at(dir, default_profile_default()));
    r.push(stored_at(dir, default_profile_streaming()));
    r.push(stored_at(dir, default_profile_lowlight()));
    r.push(stored_at(dir, default_profile_meeting()));
    r
}

/// Which of the default profiles are still to be created: the indices,
/// among the first `n`, whose file is not known to exist (`exists[i]`
/// tells whether the file of default profile `i` exists; an index past
/// its end counts as missing), in order.
pub open spec fn missing_defaults(exists: Seq<bool>, n: nat) -> Seq<int>
    decreases n,
{
    if n == 0 {
        Seq::empty()
    } else {
        let before = missing_defaults(exists, (n - 1) as nat);
        if n - 1 < exists.len() && exists[n - 1] { before } else { before.push(n - 1) }
    }
}

proof fn lemma_missing_defaults_range(exists: Seq<bool>, n: nat)
    ensures
        missing_defaults(exists, n).len() <= n,
        forall|j: int| 0 <= j < missing_defaults(exists, n).len() ==> 0 <= #[trigger] missing_defaults(exists, n)[j] < n,
    decreases n,
{
    if n > 0 {
        lemma_missing_defaults_range(exists, (n - 1) as nat);
    }
}

/// The default profiles to create in `dir`, each with its file: only those
/// whose file does not exist yet (`exists[i]` tells whether the file of
/// default profile `i`, as `create_default_profiles` names it, exists),
/// in the order of the defaults. Existing profiles are never overwritten.
pub fn defaults_to_create(dir: &str, exists: &[bool]) -> (r: Vec<(String, Profile)>)
    ensures
        r@.len() == missing_defaults(exists@, 4).len(),
        forall|j: int| 0 <= j < r@.len() ==> {
            let i = missing_defaults(exists@, 4)[j];
            &&& (#[trigger] r@[j]).1@ == default_profile_views()[i]
            &&& r@[j].0@ == path_join(dir@, default_profile_views()[i].name + ".toml"@)
            &&& r@[j].1.wf()
        },
{
    let mut all = create_default_profiles(dir);
    let ghost all0 = all@;
    let mut r: Vec<(String, Profile)> = Vec::new();
    let mut i: usize = 0;
    while i < 4
        invariant
            i <= 4,
            all0.len() == 4,
            forall|k: int| 0 <= k < 4 ==> {
                &&& (#[trigger] all0[k]).1@ == default_profile_views()[k]
                &&& all0[k].0@ == path_join(dir@, default_profile_views()[k].name + ".toml"@)
                &&& all0[k].1.wf()
            },
            all@ == all0.subrange(i as int, 4),
            r@.len() == missing_defaults(exists@, i as nat).len(),
            forall|j: int| 0 <= j < r@.len() ==> #[trigger] r@[j] == all0[missing_defaults(exists@, i as nat)[j]],
        decreases 4 - i,
    {
        let entry = all.remove(0);
        assert(entry == all0[i as int]);
        assert(all@ =~= all0.subrange(i + 1, 4));
        let present = i < exists.len() && exists[i];
        if !present {
            r.push(entry);
        }
        i = i + 1;
    }
    proof {
        lemma_missing_defaults_range(exists@, 4);
    }
    r
}

/// The control ranges confirmed on the device (firmware 4.09), for the
/// controls the default profiles set.
pub open spec fn in_confirmed_range(name: Seq<char>, value: i64) -> bool {
    if name == "brightness"@ {
        0 <= value <= 255
    } else if name == "contrast"@ {
        0 <= value <= 10
    } else if name == "saturation"@ {
        0 <= value <= 63
    } else if name == "sharpness"@ {
        0 <= value <= 4
    } else if name == "white_balance_temperature_auto"@ {
        0 <= value <= 1
    } else if name == "power_line_frequency"@ {
        0 <= value <= 2
    } else if name == "auto_exposure"@ {
        value == 0 || value == 2
    } else if name == "exposure_absolute"@ {
        1 <= value <= 2500
    } else {
        false
    }
}

/// A video mode the Facecam streams (firmware 4.09): UYVY or MJPEG at
/// 1920x1080, 1280x720 or 960x540, 60 or 30 frames per second.
pub open spec fn is_device_mode(m: VideoModeView) -> bool {
    &&& (m.format == "UYVY"@ || m.format == "MJPG"@)
    &&& ((m.width == 1920 && m.height == 1080) || (m.width == 1280 && m.height == 720)
        || (m.width == 960 && m.height == 540))
    &&& (m.fps == 60 || m.fps == 30)
}


/// The control names of the default profiles are pairwise different texts.
proof fn lemma_control_names_differ()
    ensures
        "brightness"@ != "contrast"@,
        "brightness"@ != "saturation"@,
        "brightness"@ != "sharpness"@,
        "brightness"@ != "white_balance_temperature_auto"@,
        "brightness"@ != "auto_exposure"@,
        "brightness"@ != "power_line_frequency"@,
        "brightness"@ != "exposure_absolute"@,
        "contrast"@ != "saturation"@,
        "contrast"@ != "sharpness"@,
        "contrast"@ != "white_balance_temperature_auto"@,
        "contrast"@ != "auto_exposure"@,
        "contrast"@ != "power_line_frequency"@,
        "contrast"@ != "exposure_absolute"@,
        "saturation"@ != "sharpness"@,
        "saturation"@ != "white_balance_temperature_auto"@,
        "saturation"@ != "auto_exposure"@,
        "saturation"@ != "power_line_frequency"@,
        "saturation"@ != "exposure_absolute"@,
        "sharpness"@ != "white_balance_temperature_auto"@,
        "sharpness"@ != "auto_exposure"@,
        "sharpness"@ != "power_line_frequency"@,
        "sharpness"@ != "exposure_absolute"@,
        "white_balance_temperature_auto"@ != "auto_exposure"@,
        "white_balance_temperature_auto"@ != "power_line_frequency"@,
        "white_balance_temperature_auto"@ != "exposure_absolute"@,
        "auto_exposure"@ != "power_line_frequency"@,
        "auto_exposure"@ != "exposure_absolute"@,
        "power_line_frequency"@ != "exposure_absolute"@,
{
    reveal_strlit("brightness");
    reveal_strlit("contrast");
    reveal_strlit("saturation");
    reveal_strlit("sharpness");
    reveal_strlit("white_balance_temperature_auto");
    reveal_strlit("auto_exposure");
    reveal_strlit("power_line_frequency");
    reveal_strlit("exposure_absolute");
    assert("brightness"@.len() != "contrast"@.len());
    assert("brightness"@[0] != "saturation"@[0]);
    assert("brightness"@.len() != "sharpness"@.len());
    assert("brightness"@.len() != "white_balance_temperature_auto"@.len());
    assert("brightness"@.len() != "auto_exposure"@.len());
    assert("brightness"@.len() != "power_line_frequency"@.len());
    assert("brightness"@.len() != "exposure_absolute"@.len());
    assert("contrast"@.len() != "saturation"@.len());
    assert("contrast"@.len() != "sharpness"@.len());
    assert("contrast"@.len() != "white_balance_temperature_auto"@.len());
    assert("contrast"@.len() != "auto_exposure"@.len());
    assert("contrast"@.len() != "power_line_frequency"@.len());
    assert("contrast"@.len() != "exposure_absolute"@.len());
    assert("saturation"@.len() != "sharpness"@.len());
    assert("saturation"@.len() != "white_balance_temperature_auto"@.len());
    assert("saturation"@.len() != "auto_exposure"@.len());
    assert("saturation"@.len() != "power_line_frequency"@.len());
    assert("saturation"@.len() != "exposure_absolute"@.len());
    assert("sharpness"@.len() != "white_balance_temperature_auto"@.len());
    assert("sharpness"@.len() != "auto_exposure"@.len());
    assert("sharpness"@.len() != "power_line_frequency"@.len());
    assert("sharpness"@.len() != "exposure_absolute"@.len());
    assert("white_balance_temperature_auto"@.len() != "auto_exposure"@.len());
    assert("white_balance_temperature_auto"@.len() != "power_line_frequency"@.len());
    assert("white_balance_temperature_auto"@.len() != "exposure_absolute"@.len());
    assert("auto_exposure"@.len() != "power_line_frequency"@.len());
    assert("auto_exposure"@.len() != "exposure_absolute"@.len());
    assert("power_line_frequency"@.len() != "exposure_absolute"@.len());
}

/// The default profile names are pairwise different texts.
proof fn lemma_profile_names_differ()
    ensures
        "default"@ != "streaming"@,
        "default"@ != "lowlight"@,
        "default"@ != "meeting"@,
        "streaming"@ != "lowlight"@,
        "streaming"@ != "meeting"@,
        "lowlight"@ != "meeting"@,
{
    reveal_strlit("default");
    reveal_strlit("streaming");
    reveal_strlit("lowlight");
    reveal_strlit("meeting");
    assert("default"@.len() != "streaming"@.len());
    assert("default"@.len() != "lowlight"@.len());
    assert("default"@[0] != "meeting"@[0]);
    assert("streaming"@.len() != "lowlight"@.len());
    assert("streaming"@.len() != "meeting"@.len());
    assert("lowlight"@.len() != "meeting"@.len());
}
/// The built-in profiles and their video modes: "default" is 1080p30
/// UYVY, "streaming" 1080p60 MJPEG, "lowlight" 720p30 UYVY and "meeting"
/// 720p30 MJPEG, in that order.
pub proof fn lemma_default_profile_modes()
    ensures
        default_profile_views().len() == 4,
        default_profile_views().map_values(|p: ProfileView| p.name)
            == seq!["default"@, "streaming"@, "lowlight"@, "meeting"@],
        forall|i: int| 0 <= i < 4 ==> {
            let p = #[trigger] default_profile_views()[i];
            &&& p.name == "default"@ ==> p.video_mode == Some(VideoModeView { width: 1920, height: 1080, fps: 30, format: "UYVY"@ })
            &&& p.name == "streaming"@ ==> p.video_mode == Some(VideoModeView { width: 1920, height: 1080, fps: 60, format: "MJPG"@ })
            &&& p.name == "lowlight"@ ==> p.video_mode == Some(VideoModeView { width: 1280, height: 720, fps: 30, format: "UYVY"@ })
            &&& p.name == "meeting"@ ==> p.video_mode == Some(VideoModeView { width: 1280, height: 720, fps: 30, format: "MJPG"@ })
        },
{
    lemma_profile_names_differ();
    assert(default_profile_views().map_values(|p: ProfileView| p.name)
        =~= seq!["default"@, "streaming"@, "lowlight"@, "meeting"@]);
}

/// The default profiles have distinct names.
pub proof fn lemma_default_names_distinct()
    ensures
        forall|i: int, j: int| 0 <= i < j < 4 ==> default_profile_views()[i].name != default_profile_views()[j].name,
{
    lemma_profile_names_differ();
}

/// Within each default profile, no control is set twice.
pub proof fn lemma_default_controls_distinct()
    ensures
        forall|i: int| 0 <= i < 4 ==> controls_distinct(#[trigger] default_profile_views()[i].controls),
{
    lemma_control_names_differ();
    assert(controls_distinct(default_profile_views()[0].controls));
    assert(controls_distinct(default_profile_views()[1].controls));
    assert(controls_distinct(default_profile_views()[2].controls));
    assert(controls_distinct(default_profile_views()[3].controls));
}

/// Every control a default profile sets is one of the device's confirmed
/// controls, with a value inside its confirmed range.
pub proof fn lemma_default_controls_in_range()
    ensures
        forall|i: int, j: int| 0 <= i < 4 && 0 <= j < default_profile_views()[i].controls.len() ==>
            in_confirmed_range(#[trigger] default_profile_views()[i].controls[j].0, default_profile_views()[i].controls[j].1),
{
    lemma_control_names_differ();
}

/// Every default profile asks for a video mode the device streams.
pub proof fn lemma_default_modes_supported()
    ensures
        forall|i: int| 0 <= i < 4 ==> ((#[trigger] default_profile_views()[i]).video_mode matches Some(m) && is_device_mode(m)),
{
}

} // verus!

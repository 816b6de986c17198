//! Daemon configuration: the settings, their defaults, and where the
//! configuration file is looked for.
use vstd::prelude::*;
use vstd::string::*;
use crate::text::{join_path, path_join};

verus! {

#[derive(Debug, Clone)]
pub struct DaemonConfig {
    /// Maximum USB reset recovery attempts before giving up
    pub max_recovery_attempts: u32,
    /// Timeout in ms waiting for a frame before considering the stream dead
    pub frame_timeout_ms: u64,
    /// v4l2loopback module parameters
    pub loopback: LoopbackConfig,
    /// Logging configuration
    pub logging: LoggingConfig,
}

#[derive(Debug, Clone)]
pub struct LoopbackConfig {
    /// Video device number for the virtual camera
    pub video_nr: u32,
    /// Card label shown to applications
    pub card_label: String,
    /// Maximum simultaneous consumers
    pub max_openers: u32,
}

#[derive(Debug, Clone)]
pub struct LoggingConfig {
    /// Directory for log files
    pub log_dir: String,
    /// Maximum number of diagnostic events to keep in memory
    pub max_events: usize,
}

pub fn default_max_recovery() -> (r: u32)
    ensures
        r == 5,
{
    5
}

pub fn default_frame_timeout() -> (r: u64)
    ensures
        r == 5000,
{
    5000
}

pub fn default_video_nr() -> (r: u32)
    ensures
        r == 10,
{
    10
}

pub fn default_card_label() -> (r: String)
    ensures
        r@ == "Facecam Normalized"@,
{
    String::from_str("Facecam Normalized")
}

pub fn default_max_openers() -> (r: u32)
    ensures
        r == 10,
{
    10
}

/// The home directory, `/tmp` when `HOME` is unset.
pub open spec fn home_or_tmp(home_env: Option<Seq<char>>) -> Seq<char> {
    match home_env {
        Some(h) => h,
        None => "/tmp"@,
    }
}

pub open spec fn opt_view(s: Option<&str>) -> Option<Seq<char>> {
    match s {
        Some(t) => Some(t@),
        None => None,
    }
}

/// Default log directory, from the value of the `HOME` environment
/// variable: `$HOME/.local/share/facecam/logs`.
pub fn default_log_dir(home_env: Option<&str>) -> (r: String)
    ensures
        r@ == home_or_tmp(opt_view(home_env)) + "/.local/share/facecam/logs"@,
{
    let home = match home_env {
        Some(h) => h,
        None => "/tmp",
    };
    let mut dir = String::from_str(home);
    dir.append("/.local/share/facecam/logs");
    dir
}

pub fn default_max_events() -> (r: usize)
    ensures
        r == 1000,
{
    1000
}

impl Default for LoopbackConfig {
    fn default() -> (r: Self)
        ensures
            r.video_nr == 10,
            r.card_label@ == "Facecam Normalized"@,
            r.max_openers == 10,
    {
        LoopbackConfig {
            video_nr: default_video_nr(),
            card_label: default_card_label(),
            max_openers: default_max_openers(),
        }
    }
}

impl LoggingConfig {
    /// The default logging settings for the given value of `HOME`.
    pub fn for_home(home_env: Option<&str>) -> (r: Self)
        ensures
            r.log_dir@ == home_or_tmp(opt_view(home_env)) + "/.local/share/facecam/logs"@,
            r.max_events == 1000,
    {
        LoggingConfig { log_dir: default_log_dir(home_env), max_events: default_max_events() }
    }
}

impl DaemonConfig {
    /// The default daemon settings for the given value of `HOME`.
    pub fn for_home(home_env: Option<&str>) -> (r: Self)
        ensures
            r.max_recovery_attempts == 5,
            r.frame_timeout_ms == 5000,
            r.loopback.video_nr == 10,
            r.loopback.card_label@ == "Facecam Normalized"@,
            r.loopback.max_openers == 10,
            r.logging.log_dir@ == home_or_tmp(opt_view(home_env)) + "/.local/share/facecam/logs"@,
            r.logging.max_events == 1000,
    {
        DaemonConfig {
            max_recovery_attempts: default_max_recovery(),
            frame_timeout_ms: default_frame_timeout(),
            loopback: LoopbackConfig::default(),
            logging: LoggingConfig::for_home(home_env),
        }
    }
}

/// Where the daemon configuration is read from: the given path, else
/// `$HOME/.config/facecam/daemon.toml`.
pub fn config_path(path: Option<&str>, home_env: Option<&str>) -> (r: String)
    ensures
        r@ == match path {
            Some(p) => p@,
            None => path_join(home_or_tmp(opt_view(home_env)), ".config/facecam/daemon.toml"@),
        },
{
    match path {
        Some(p) => String::from_str(p),
        None => {
            let home = match home_env {
                Some(h) => h,
                None => "/tmp",
            };
            join_path(home, ".config/facecam/daemon.toml")
        },
    }
}

} // verus!

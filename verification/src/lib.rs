//! Device identification, quirk registry, profiles, recovery decisions,
//! V4L2 response parsing and framebuffer overlays for the Elgato Facecam.
pub mod text;
pub mod device;
pub mod formats;
pub mod quirks;
pub mod overlays;
pub mod ab_compare;
pub mod waterfall;
pub mod recovery;
pub mod v4l2;
pub mod order;
pub mod profiles;
pub mod config;
pub mod usb;
pub mod ipc;
pub mod fuzz;
pub mod watchdog;

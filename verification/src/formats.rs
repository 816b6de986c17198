//! Pixel formats that the Facecam advertises.
use vstd::prelude::*;

verus! {

/// A V4L2 pixel format as the Facecam advertises it.
#[derive(Debug, Clone, Copy, PartialEq, Eq, Structural, Hash)]
pub enum PixelFormat {
    /// YUYV 4:2:2
    Yuyv,
    /// UYVY 4:2:2
    Uyvy,
    /// Motion JPEG
    Mjpeg,
    /// Y/CbCr 4:2:0
    Nv12,
    /// Planar YUV 4:2:0
    Yu12,
}

} // verus!

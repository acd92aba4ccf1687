//! List information of video capture devices.
//!
//! The library takes a plain-value snapshot of what a platform's multimedia
//! subsystem reports — devices, their property bags, pins and format
//! descriptors — and turns it into a list of device records, each carrying a
//! stable identity, a human-readable description, and the deduplicated,
//! throughput-ranked set of resolutions the device advertises.
//!
//! The platform binding that gathers the snapshot performs operating-system
//! calls and lives outside this crate; everything here is pure logic with
//! verified contracts.

use vstd::prelude::*;

pub mod aggregate;
pub mod dshow;
pub mod format;

verus! {

/// The information of a capture device.
///
/// Depending on the platform, some information may be unavailable.
pub trait CaptureDeviceInfo {
    /// Returns the device name of the camera.
    ///
    /// This is a platform identity, not necessarily human-readable, and may
    /// be empty or non-unique for virtual devices.
    fn name(&self) -> (r: &str);

    /// Returns the human-readable description of the camera.
    fn description(&self) -> (r: &str);

    /// Returns the physical orientation of the camera sensor: the clockwise
    /// angle, in steps of 90 degrees, of the sensor in relation to the
    /// display in its natural orientation, or `None` when unspecified.
    fn orientation(&self) -> (r: Option<i32>);

    /// Returns the physical position of the camera on the hardware system,
    /// or `None` when unspecified.
    fn position(&self) -> (r: Option<CaptureDevicePosition>);

    /// Returns the supported resolutions of the camera, ranked by capture
    /// throughput in descending order.
    fn resolutions(&self) -> (r: &[CaptureDeviceResolution]);
}

/// The physical position of the camera on the hardware system.
#[derive(Debug, Clone, Copy, PartialEq, Eq, Hash)]
pub enum CaptureDevicePosition {
    /// The camera is on the back of the device.
    Back,
    /// The camera is on the front of the device.
    Front,
}

/// The resolution of a capture device.
///
/// The frame rate is stored in its canonical rounded form, hundredths of a
/// frame per second, so equality on this type already identifies two rates
/// that agree after rounding to two decimal places.
#[derive(Debug, Clone, Copy, PartialEq, Eq, Hash, Structural)]
pub struct CaptureDeviceResolution {
    /// Width of a frame.
    pub width: u32,
    /// Height of a frame.
    pub height: u32,
    /// Frame rate per second, in hundredths (a value of 3000 is 30.00 fps).
    pub frame_rate_centi: u32,
}

impl CaptureDeviceResolution {
    /// Capture throughput `width * height * frame_rate`, the ranking key of a
    /// resolution list, expressed over the canonical hundredths so that the
    /// comparison never touches an unrounded rate.
    pub open spec fn spec_throughput(self) -> int {
        self.width * self.height * self.frame_rate_centi
    }

    /// The frame rate expressed in time units of one hundredth of a second.
    pub fn frame_rate_by_units(&self) -> (r: i64)
        ensures
            r == self.frame_rate_centi as i64,
    {
        self.frame_rate_centi as i64
    }

    /// Computes the ranking key `width * height * frame_rate_centi`.
    pub fn throughput(&self) -> (r: u128)
        ensures
            r == self.spec_throughput(),
    {
        proof {
            assert((self.width as int) * (self.height as int) < 0x10000000000000000int)
                by (nonlinear_arith)
                requires
                    self.width <= u32::MAX,
                    self.height <= u32::MAX,
            ;
        }
        let area: u64 = (self.width as u64) * (self.height as u64);
        proof {
            assert((area as int) * (self.frame_rate_centi as int)
                < 0x100000000000000000000000000000000int) by (nonlinear_arith)
                requires
                    area <= u64::MAX,
                    self.frame_rate_centi <= u32::MAX,
            ;
        }
        (area as u128) * (self.frame_rate_centi as u128)
    }
}

} // verus!

//! Interpretation of raw format descriptors.
//!
//! A format descriptor arrives from the platform as a tagged record. Exactly
//! two record shapes carry resolution data; the interpreter extracts a
//! normalized `(width, height, frame rate)` tuple from those and yields
//! nothing for every other shape.

use vstd::prelude::*;

use crate::CaptureDeviceResolution;

verus! {

/// The shape of a raw format descriptor, as tagged by the platform.
#[derive(Debug, Clone, Copy, PartialEq, Eq, Structural)]
pub enum FormatKind {
    /// The legacy video-format record layout.
    VideoInfo,
    /// The extended video-format record layout.
    VideoInfo2,
    /// Any other descriptor shape; it carries no resolution data.
    Unrecognized,
}

/// One raw format descriptor offered by a pin, reduced to the plain fields
/// the interpreter reads: the record shape, the signed bitmap width and
/// height, and the nominal frame interval in 100-nanosecond ticks.
#[derive(Debug, Clone, Copy, PartialEq, Eq, Structural)]
pub struct FormatDescriptor {
    /// Which record layout the descriptor uses.
    pub kind: FormatKind,
    /// Signed bitmap width; reinterpreted as-is as an unsigned pixel count.
    pub width: i32,
    /// Signed bitmap height; the sign encodes row order, not capability, so
    /// only the absolute value is meaningful.
    pub height: i32,
    /// Average time per frame in 100-nanosecond ticks.
    pub avg_time_per_frame: i64,
}

/// The canonically rounded frame rate for a frame interval of `ticks`
/// 100-nanosecond ticks, in hundredths of a frame per second: the nearest
/// integer to `10^9 / ticks`, halves rounded away from zero.
pub open spec fn rounded_centi_rate(ticks: int) -> int
    recommends
        ticks >= 1,
{
    (2_000_000_000 + ticks) / (2 * ticks)
}

/// The unsigned 32-bit pixel count carrying the same bits as a signed width.
pub open spec fn width_as_unsigned(w: i32) -> int {
    if w >= 0 {
        w as int
    } else {
        w as int + 0x1_0000_0000
    }
}

/// The absolute value of a signed bitmap height.
pub open spec fn height_magnitude(h: i32) -> int {
    if h >= 0 {
        h as int
    } else {
        -(h as int)
    }
}

/// Whether a descriptor uses one of the two recognized video-format record
/// shapes and states a frame interval that can describe a frame rate.
pub open spec fn is_recognized(d: FormatDescriptor) -> bool {
    (d.kind == FormatKind::VideoInfo || d.kind == FormatKind::VideoInfo2)
        && d.avg_time_per_frame >= 1
}

/// What the format interpreter yields for one descriptor: a normalized
/// resolution for the recognized shapes, and nothing otherwise.
pub open spec fn interpreted(d: FormatDescriptor) -> Option<CaptureDeviceResolution> {
    if is_recognized(d) {
        Some(
            CaptureDeviceResolution {
                width: width_as_unsigned(d.width) as u32,
                height: height_magnitude(d.height) as u32,
                frame_rate_centi: rounded_centi_rate(d.avg_time_per_frame as int) as u32,
            },
        )
    } else {
        None
    }
}

/// The canonically rounded rate of any positive frame interval lies between
/// zero and the rate of a one-tick interval, one thousand million hundredths.
pub proof fn lemma_rounded_centi_rate_bounds(ticks: int)
    requires
        ticks >= 1,
    ensures
        0 <= rounded_centi_rate(ticks) <= 1_000_000_000,
{
    assert(2_000_000_000 + ticks < (2 * ticks) * 1_000_000_001) by (nonlinear_arith)
        requires
            ticks >= 1,
    ;
    assert((2_000_000_000 + ticks) / (2 * ticks) <= 1_000_000_000) by (nonlinear_arith)
        requires
            ticks >= 1,
            2_000_000_000 + ticks < (2 * ticks) * 1_000_000_001,
    ;
    assert((2_000_000_000 + ticks) / (2 * ticks) >= 0) by (nonlinear_arith)
        requires
            ticks >= 1,
    ;
}

/// Height-sign law: a recognized descriptor with a negative height field
/// yields a resolution whose height is the positive absolute value; the sign
/// is discarded, never propagated.
pub proof fn lemma_height_sign_normalized(d: FormatDescriptor)
    requires
        is_recognized(d),
    ensures
        interpreted(d) is Some,
        interpreted(d).unwrap().height == height_magnitude(d.height),
        height_magnitude(d.height) >= 0,
        d.height < 0 ==> interpreted(d).unwrap().height == -(d.height as int),
{
}

/// Computes `rounded_centi_rate` for a positive frame interval.
pub fn round_centi_rate(ticks: i64) -> (r: u32)
    requires
        ticks >= 1,
    ensures
        r == rounded_centi_rate(ticks as int),
{
    let t: u128 = ticks as u128;
    let q: u128 = (2_000_000_000 + t) / (2 * t);
    proof {
        assert(2_000_000_000 + t < (2 * t) * 1_000_000_001) by (nonlinear_arith)
            requires
                t >= 1,
        ;
        assert(q <= 1_000_000_000) by (nonlinear_arith)
            requires
                t >= 1,
                q == (2_000_000_000 + t) / (2 * t),
                2_000_000_000 + t < (2 * t) * 1_000_000_001,
        ;
    }
    q as u32
}

/// Decodes one descriptor into an optional normalized resolution: the frame
/// interval becomes a rounded rate in hundredths of frames per second, the
/// width keeps its bit pattern, and the height loses its sign.
///
/// A descriptor with a non-positive frame interval cannot describe a frame
/// rate; it yields no tuple, like an unrecognized shape.
pub fn interpret_format(d: &FormatDescriptor) -> (r: Option<CaptureDeviceResolution>)
    ensures
        r == interpreted(*d),
{
    match d.kind {
        FormatKind::Unrecognized => None,
        _ => {
            if d.avg_time_per_frame >= 1 {
                let width: u32 = if d.width >= 0 {
                    d.width as u32
                } else {
                    ((d.width as i64) + 0x1_0000_0000i64) as u32
                };
                let height: u32 = if d.height >= 0 {
                    d.height as u32
                } else {
                    (-(d.height as i64)) as u32
                };
                let frame_rate_centi: u32 = round_centi_rate(d.avg_time_per_frame);
                Some(CaptureDeviceResolution { width, height, frame_rate_centi })
            } else {
                None
            }
        },
    }
}

} // verus!

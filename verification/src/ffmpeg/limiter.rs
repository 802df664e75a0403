//! Dropping frames to keep to a frame rate.
use vstd::prelude::*;
use crate::ffmpeg::frame::Frame;
use crate::ffmpeg::rational::AVRational;

verus! {

/// `a / b` rounded toward zero, as integer division in Rust rounds.
pub open spec fn trunc_div(a: int, b: int) -> int {
    let q: int = vstd::math::abs(a) as int / vstd::math::abs(b) as int;
    if (a < 0) == (b < 0) {
        q
    } else {
        -q
    }
}

/// Divides, rounding toward zero.
fn div_toward_zero(a: i32, b: i32) -> (q: i32)
    requires
        b != 0,
        !(a == i32::MIN && b == -1),
    ensures
        q as int == trunc_div(a as int, b as int),
{
    let ma: i64 = if a < 0 { -(a as i64) } else { a as i64 };
    let mb: i64 = if b < 0 { -(b as i64) } else { b as i64 };
    let m = ma / mb;
    assert(0 <= m <= ma && (mb >= 2 ==> 2 * m <= ma) && (mb == 1 ==> m == ma)) by (nonlinear_arith)
        requires
            0 <= ma,
            0 < mb,
            m == ma / mb,
    ;
    assert(ma == vstd::math::abs(a as int) && mb == vstd::math::abs(b as int));
    if (a < 0) == (b < 0) {
        m as i32
    } else {
        -m as i32
    }
}

/// Keeps every frame whose time since the last kept frame reaches the frame
/// timing, counting leftover time towards the next.
#[derive(Debug)]
pub struct FrameRateLimiter {
    /// The timestamp of the last frame seen.
    pub last_frame: i64,
    /// Time seen and not yet spent on a kept frame.
    pub accumulated_time: i64,
    /// The time, in the time base, between two kept frames.
    pub frame_timing: i64,
}

impl FrameRateLimiter {
    /// Creates a new frame rate limiter for `frame_rate` frames per second
    /// in the time base `time_base`.
    pub fn new(frame_rate: i32, time_base: AVRational) -> (r: FrameRateLimiter)
        requires
            frame_rate != 0,
            time_base.num != 0,
            !(time_base.den == i32::MIN && frame_rate == -1),
            !(trunc_div(time_base.den as int, frame_rate as int) == i32::MIN && time_base.num == -1),
        ensures
            r.last_frame == 0,
            r.accumulated_time == 0,
            r.frame_timing == trunc_div(trunc_div(time_base.den as int, frame_rate as int), time_base.num as int),
    {
        let per_frame = div_toward_zero(time_base.den, frame_rate);
        let frame_timing = div_toward_zero(per_frame, time_base.num) as i64;
        FrameRateLimiter { last_frame: 0, accumulated_time: 0, frame_timing }
    }

    /// Takes the next frame (its decoding timestamp, or its presentation
    /// timestamp when it has none) and returns whether to keep it.
    pub fn limit(&mut self, frame: &Frame) -> (keep: bool)
        requires
            frame@.dts is Some || frame@.pts is Some,
            ({
                let ts = match frame@.dts {
                    Some(d) => d,
                    None => frame@.pts->0,
                };
                let delta = ts - old(self).last_frame;
                &&& i64::MIN <= delta <= i64::MAX
                &&& i64::MIN <= old(self).accumulated_time + delta <= i64::MAX
                &&& old(self).accumulated_time + delta >= old(self).frame_timing
                    ==> i64::MIN <= old(self).accumulated_time + delta - old(self).frame_timing <= i64::MAX
            }),
        ensures
            ({
                let ts = match frame@.dts {
                    Some(d) => d,
                    None => frame@.pts->0,
                };
                let acc = old(self).accumulated_time + (ts - old(self).last_frame);
                &&& final(self).last_frame == ts
                &&& final(self).frame_timing == old(self).frame_timing
                &&& keep == (acc >= old(self).frame_timing)
                &&& final(self).accumulated_time == if keep { acc - old(self).frame_timing } else { acc }
            }),
    {
        let ts = match frame.dts() {
            Some(dts) => dts,
            None => match frame.pts() {
                Some(pts) => pts,
                None => {
                    assert(false);
                    0
                },
            },
        };
        let delta = ts - self.last_frame;
        self.last_frame = ts;
        self.accumulated_time = self.accumulated_time + delta;
        if self.accumulated_time >= self.frame_timing {
            self.accumulated_time = self.accumulated_time - self.frame_timing;
            true
        } else {
            false
        }
    }
}

} // verus!

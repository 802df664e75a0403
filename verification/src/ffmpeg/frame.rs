//! The timing fields of a media frame.
use vstd::prelude::*;
use crate::ffmpeg::error::FfmpegError;
use crate::ffmpeg::utils::{check_i64, or_nopts, timestamp_of, stored_of, AV_NOPTS_VALUE};

verus! {

/// The timing fields of a frame, as ffmpeg stores them: a missing timestamp
/// is held as `AV_NOPTS_VALUE`.
#[derive(Debug, Clone, Copy, PartialEq, Eq, Structural)]
pub struct Frame {
    pts: i64,
    dts: i64,
    duration: i64,
}

/// The state of a [`Frame`] as the contracts see it.
pub struct FrameView {
    pub pts: Option<i64>,
    pub dts: Option<i64>,
    pub duration: Option<i64>,
}

impl View for Frame {
    type V = FrameView;

    closed spec fn view(&self) -> FrameView {
        FrameView { pts: timestamp_of(self.pts), dts: timestamp_of(self.dts), duration: timestamp_of(self.duration) }
    }
}

impl Frame {
    /// Creates a frame with no timestamps and a zero duration.
    pub fn new() -> (r: Result<Frame, FfmpegError>)
        ensures
            r matches Ok(f) && f@.pts is None && f@.dts is None && f@.duration == Some(0i64),
    {
        Ok(Frame { pts: AV_NOPTS_VALUE, dts: AV_NOPTS_VALUE, duration: 0 })
    }

    /// Returns the presentation timestamp of the frame.
    pub fn pts(&self) -> (r: Option<i64>)
        ensures
            r == self@.pts,
    {
        check_i64(self.pts)
    }

    /// Sets the presentation timestamp of the frame.
    pub fn set_pts(&mut self, pts: Option<i64>)
        ensures
            final(self)@.pts == timestamp_of(stored_of(pts)),
            final(self)@.dts == old(self)@.dts,
            final(self)@.duration == old(self)@.duration,
    {
        self.pts = or_nopts(pts);
    }

    /// Returns the decoding timestamp of the frame.
    pub fn dts(&self) -> (r: Option<i64>)
        ensures
            r == self@.dts,
    {
        check_i64(self.dts)
    }

    /// Sets the decoding timestamp of the frame.
    pub fn set_dts(&mut self, dts: Option<i64>)
        ensures
            final(self)@.dts == timestamp_of(stored_of(dts)),
            final(self)@.pts == old(self)@.pts,
            final(self)@.duration == old(self)@.duration,
    {
        self.dts = or_nopts(dts);
    }

    /// Returns the duration of the frame.
    pub fn duration(&self) -> (r: Option<i64>)
        ensures
            r == self@.duration,
    {
        check_i64(self.duration)
    }

    /// Sets the duration of the frame.
    pub fn set_duration(&mut self, duration: Option<i64>)
        ensures
            final(self)@.duration == timestamp_of(stored_of(duration)),
            final(self)@.pts == old(self)@.pts,
            final(self)@.dts == old(self)@.dts,
    {
        self.duration = or_nopts(duration);
    }
}

} // verus!

//! The fields of a compressed media packet and its flags.
use vstd::prelude::*;
use crate::ffmpeg::error::FfmpegError;
use crate::ffmpeg::utils::{check_i64, or_nopts, timestamp_of, stored_of, AV_NOPTS_VALUE};

verus! {

/// Packet flags, as ffmpeg lays them out: one bit each.
#[derive(Debug, Clone, Copy, PartialEq, Eq, Hash, Structural)]
pub struct AVPktFlags(pub i32);

impl AVPktFlags {
    /// The packet holds a keyframe.
    #[allow(non_snake_case)]
    pub fn Key() -> (f: AVPktFlags)
        ensures
            f.0 == 1,
    {
        AVPktFlags(1)
    }

    /// The packet is corrupt.
    #[allow(non_snake_case)]
    pub fn Corrupt() -> (f: AVPktFlags)
        ensures
            f.0 == 2,
    {
        AVPktFlags(2)
    }

    /// The packet should be discarded.
    #[allow(non_snake_case)]
    pub fn Discard() -> (f: AVPktFlags)
        ensures
            f.0 == 4,
    {
        AVPktFlags(4)
    }

    /// The packet comes from a trusted source.
    #[allow(non_snake_case)]
    pub fn Trusted() -> (f: AVPktFlags)
        ensures
            f.0 == 8,
    {
        AVPktFlags(8)
    }

    /// The packet is disposable (a non-reference frame).
    #[allow(non_snake_case)]
    pub fn Disposable() -> (f: AVPktFlags)
        ensures
            f.0 == 16,
    {
        AVPktFlags(16)
    }

    /// Whether any bit of `other` is set in these flags.
    pub fn intersects(self, other: AVPktFlags) -> (b: bool)
        ensures
            b == (self.0 & other.0 != 0),
    {
        self.0 & other.0 != 0
    }
}

/// The fields of a packet that the library reads and writes, as ffmpeg
/// stores them: a missing timestamp or position is held as `AV_NOPTS_VALUE`.
#[derive(Debug, Clone, Copy, PartialEq, Eq, Structural)]
pub struct AVPacket {
    pub stream_index: i32,
    pub pts: i64,
    pub dts: i64,
    pub duration: i64,
    pub pos: i64,
    pub flags: i32,
}

/// A packet.
#[derive(Debug, Clone, Copy, PartialEq, Eq, Structural)]
pub struct Packet(AVPacket);

impl View for Packet {
    type V = AVPacket;

    closed spec fn view(&self) -> AVPacket {
        self.0
    }
}

impl Packet {
    /// Creates a packet with ffmpeg's defaults: stream 0, no timestamps, a
    /// zero duration, position -1 and no flags.
    pub fn new() -> (r: Result<Packet, FfmpegError>)
        ensures
            r matches Ok(p) && p@ == (AVPacket {
                stream_index: 0i32,
                pts: AV_NOPTS_VALUE,
                dts: AV_NOPTS_VALUE,
                duration: 0i64,
                pos: -1i64,
                flags: 0i32,
            }),
    {
        Ok(Packet(AVPacket { stream_index: 0, pts: AV_NOPTS_VALUE, dts: AV_NOPTS_VALUE, duration: 0, pos: -1, flags: 0 }))
    }

    /// Returns the stored fields of the packet.
    pub fn as_ptr(&self) -> (r: &AVPacket)
        ensures
            *r == self@,
    {
        &self.0
    }

    /// Returns the stored fields of the packet for changing them.
    pub fn as_mut_ptr(&mut self) -> (r: &mut AVPacket)
        ensures
            *r == old(self)@,
            final(self)@ == *final(r),
    {
        &mut self.0
    }

    /// Returns the stream index of the packet.
    pub fn stream_index(&self) -> (r: i32)
        ensures
            r == self@.stream_index,
    {
        self.0.stream_index
    }

    /// Sets the stream index of the packet.
    pub fn set_stream_index(&mut self, stream_index: i32)
        ensures
            final(self)@ == (AVPacket { stream_index, ..old(self)@ }),
    {
        self.0.stream_index = stream_index;
    }

    /// Returns the presentation timestamp of the packet.
    pub fn pts(&self) -> (r: Option<i64>)
        ensures
            r == timestamp_of(self@.pts),
    {
        check_i64(self.0.pts)
    }

    /// Sets the presentation timestamp of the packet.
    pub fn set_pts(&mut self, pts: Option<i64>)
        ensures
            final(self)@ == (AVPacket { pts: stored_of(pts), ..old(self)@ }),
    {
        self.0.pts = or_nopts(pts);
    }

    /// Returns the decoding timestamp of the packet.
    pub fn dts(&self) -> (r: Option<i64>)
        ensures
            r == timestamp_of(self@.dts),
    {
        check_i64(self.0.dts)
    }

    /// Sets the decoding timestamp of the packet.
    pub fn set_dts(&mut self, dts: Option<i64>)
        ensures
            final(self)@ == (AVPacket { dts: stored_of(dts), ..old(self)@ }),
    {
        self.0.dts = or_nopts(dts);
    }

    /// Returns the duration of the packet.
    pub fn duration(&self) -> (r: Option<i64>)
        ensures
            r == timestamp_of(self@.duration),
    {
        check_i64(self.0.duration)
    }

    /// Sets the duration of the packet.
    pub fn set_duration(&mut self, duration: Option<i64>)
        ensures
            final(self)@ == (AVPacket { duration: stored_of(duration), ..old(self)@ }),
    {
        self.0.duration = or_nopts(duration);
    }

    /// Returns the position of the packet.
    pub fn pos(&self) -> (r: Option<i64>)
        ensures
            r == timestamp_of(self@.pos),
    {
        check_i64(self.0.pos)
    }

    /// Sets the position of the packet.
    pub fn set_pos(&mut self, pos: Option<i64>)
        ensures
            final(self)@ == (AVPacket { pos: stored_of(pos), ..old(self)@ }),
    {
        self.0.pos = or_nopts(pos);
    }

    /// Returns whether the packet is a key frame.
    pub fn is_key(&self) -> (b: bool)
        ensures
            b == (self@.flags & 1 != 0),
    {
        self.flags().intersects(AVPktFlags::Key())
    }

    /// Returns whether the packet is corrupt.
    pub fn is_corrupt(&self) -> (b: bool)
        ensures
            b == (self@.flags & 2 != 0),
    {
        self.flags().intersects(AVPktFlags::Corrupt())
    }

    /// Returns whether the packet should be discarded.
    pub fn is_discard(&self) -> (b: bool)
        ensures
            b == (self@.flags & 4 != 0),
    {
        self.flags().intersects(AVPktFlags::Discard())
    }

    /// Returns whether the packet is trusted.
    pub fn is_trusted(&self) -> (b: bool)
        ensures
            b == (self@.flags & 8 != 0),
    {
        self.flags().intersects(AVPktFlags::Trusted())
    }

    /// Returns whether the packet is disposable.
    pub fn is_disposable(&self) -> (b: bool)
        ensures
            b == (self@.flags & 16 != 0),
    {
        self.flags().intersects(AVPktFlags::Disposable())
    }

    /// Returns the flags of the packet.
    pub fn flags(&self) -> (f: AVPktFlags)
        ensures
            f.0 == self@.flags,
    {
        AVPktFlags(self.0.flags)
    }
}

} // verus!

//! The timing fix-ups a muxer applies to a buffered packet once the packet
//! after it is known.
use vstd::prelude::*;
use crate::ffmpeg::packet::{AVPacket, Packet};
use crate::ffmpeg::utils::{timestamp_of, stored_of};

verus! {

/// The duration a buffered packet gets from the packet after it: its own
/// when it has a non-zero one; otherwise the gap to the next packet's
/// decoding timestamp when that lies ahead, else the gap to its
/// presentation timestamp when that lies ahead, else the encoder's average.
pub open spec fn filled_duration(b: AVPacket, n: AVPacket, average_duration: i64) -> Option<i64> {
    let own = timestamp_of(b.duration);
    if own is Some && own->0 != 0 {
        own
    } else if timestamp_of(n.dts) is Some && timestamp_of(b.dts) is Some && b.dts < n.dts {
        Some((n.dts - b.dts) as i64)
    } else if timestamp_of(n.pts) is Some && timestamp_of(b.pts) is Some && b.pts < n.pts {
        Some((n.pts - b.pts) as i64)
    } else {
        Some(average_duration)
    }
}

/// A timestamp that repeats the previous one moves one step on.
pub open spec fn bumped(stored: i64, previous: i64) -> i64 {
    match timestamp_of(stored) {
        Some(t) => if t == previous { (t + 1) as i64 } else { t },
        None => stored,
    }
}

/// The previous timestamp after a packet with `stored`: its timestamp as it
/// was before any bump, or the old one when it has none.
pub open spec fn next_previous(stored: i64, previous: i64) -> i64 {
    match timestamp_of(stored) {
        Some(t) => t,
        None => previous,
    }
}

/// Whether the timing fix-ups stay inside `i64`.
pub open spec fn timing_fits(b: AVPacket, n: AVPacket, previous_dts: i64, previous_pts: i64) -> bool {
    let own = timestamp_of(b.duration);
    let needs_fill = !(own is Some && own->0 != 0);
    &&& (needs_fill && timestamp_of(n.dts) is Some && timestamp_of(b.dts) is Some && b.dts < n.dts)
        ==> n.dts - b.dts <= i64::MAX
    &&& (needs_fill && !(timestamp_of(n.dts) is Some && timestamp_of(b.dts) is Some && b.dts < n.dts)
        && timestamp_of(n.pts) is Some && timestamp_of(b.pts) is Some && b.pts < n.pts)
        ==> n.pts - b.pts <= i64::MAX
    &&& timestamp_of(b.dts) == Some(previous_dts) ==> previous_dts < i64::MAX
    &&& timestamp_of(b.pts) == Some(previous_pts) ==> previous_pts < i64::MAX
}

/// Fixes the timing of the buffered packet `buffered` now that `next`, the
/// packet after it, is known. A missing or zero duration is filled in (see
/// [`filled_duration`]); a decoding or presentation timestamp equal to the
/// previous one is moved one step on. Returns the packet and the previous
/// decoding and presentation timestamps to use for the next packet.
pub fn next_buffered_timing(
    buffered: Packet,
    next: &Packet,
    previous_dts: i64,
    previous_pts: i64,
    average_duration: i64,
) -> (r: (Packet, i64, i64))
    requires
        timing_fits(buffered@, next@, previous_dts, previous_pts),
    ensures
        r.0@ == (AVPacket {
            duration: stored_of(filled_duration(buffered@, next@, average_duration)),
            dts: bumped(buffered@.dts, previous_dts),
            pts: bumped(buffered@.pts, previous_pts),
            ..buffered@
        }),
        r.1 == next_previous(buffered@.dts, previous_dts),
        r.2 == next_previous(buffered@.pts, previous_pts),
        buffered@.dts != previous_dts || timestamp_of(buffered@.dts) is None ==> r.0@.dts == buffered@.dts,
        buffered@.dts == previous_dts && timestamp_of(buffered@.dts) is Some ==> r.0@.dts == previous_dts + 1,
        buffered@.pts != previous_pts || timestamp_of(buffered@.pts) is None ==> r.0@.pts == buffered@.pts,
        buffered@.pts == previous_pts && timestamp_of(buffered@.pts) is Some ==> r.0@.pts == previous_pts + 1,
        timestamp_of(buffered@.dts) is Some ==> r.1 == buffered@.dts,
        timestamp_of(buffered@.pts) is Some ==> r.2 == buffered@.pts,
{
    let mut packet = buffered;
    let own = packet.duration();
    let needs_fill = match own {
        Some(d) => d == 0,
        None => true,
    };
    if needs_fill {
        let gap_dts = match (next.dts(), packet.dts()) {
            (Some(next_dts), Some(dts)) => if dts < next_dts { Some(next_dts - dts) } else { None },
            _ => None,
        };
        match gap_dts {
            Some(gap) => packet.set_duration(Some(gap)),
            None => {
                let gap_pts = match (next.pts(), packet.pts()) {
                    (Some(next_pts), Some(pts)) => if pts < next_pts { Some(next_pts - pts) } else { None },
                    _ => None,
                };
                match gap_pts {
                    Some(gap) => packet.set_duration(Some(gap)),
                    None => packet.set_duration(Some(average_duration)),
                }
            },
        }
    }

    let mut prev_dts = previous_dts;
    if let Some(dts) = packet.dts() {
        if dts == prev_dts {
            packet.set_dts(Some(dts + 1));
        }
        prev_dts = dts;
    }

    let mut prev_pts = previous_pts;
    if let Some(pts) = packet.pts() {
        if pts == prev_pts {
            packet.set_pts(Some(pts + 1));
        }
        prev_pts = pts;
    }

    (packet, prev_dts, prev_pts)
}

/// Only a repeated timestamp moves: a stored timestamp that differs from the
/// previous one, or a missing one, is left as it is; one equal to the
/// previous one becomes the next value. The previous timestamp for the next
/// packet is the packet's own, as stored before the bump, whenever it has one.
pub proof fn lemma_bump_only_repeats(stored: i64, previous: i64)
    requires
        timestamp_of(stored) == Some(previous) ==> previous < i64::MAX,
    ensures
        stored != previous || timestamp_of(stored) is None ==> bumped(stored, previous) == stored,
        stored == previous && timestamp_of(stored) is Some ==> bumped(stored, previous) == previous + 1,
        bumped(stored, previous) != stored ==> bumped(stored, previous) == stored + 1,
        timestamp_of(stored) is Some ==> next_previous(stored, previous) == stored,
        timestamp_of(stored) is None ==> next_previous(stored, previous) == previous,
{
}

} // verus!

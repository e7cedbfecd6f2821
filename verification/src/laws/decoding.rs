//! What reading the frames of a file promises.

use crate::laws::files::is_time_of_ticks;
use crate::seek::{ExportDecoder, PreviewDecoder};
use vstd::prelude::*;

verus! {

/// A frame is shown for an instant if it is not before it, or less than a twentieth of a second
/// before it.
pub proof fn frames_are_shown_up_to_a_twentieth_early(pts: int, target: int)
    ensures
        crate::seek::shows(pts, target) == (pts > target - 50_000_000),
{
}

/// The preview seeks in a file that was just opened, and for an instant before the last frame
/// or more than one and a half seconds behind it; else it reads on.
pub proof fn the_preview_seeks_back_and_far_ahead(
    d: PreviewDecoder,
    just_opened: bool,
    target: int,
)
    ensures
        just_opened ==> d.must_seek(just_opened, target),
        target < d.last() ==> d.must_seek(just_opened, target),
        target > d.last() + 1_500_000_000 ==> d.must_seek(just_opened, target),
        !just_opened && d.last() <= target <= d.last() + 1_500_000_000 ==> !d.must_seek(
            just_opened,
            target,
        ),
{
}

/// The tick that is sought is the nearest to the instant on the way from zero to it.
pub proof fn the_preview_seeks_the_tick_of_the_instant(
    track: crate::codec::VideoTrackModel,
    target: int,
)
    requires
        track.time_base.numer > 0,
        track.time_base.denom > 0,
    ensures
        ({
            let tick = PreviewDecoder::tick_of(track, target) as int;
            let per_tick = track.time_base.numer * 1_000_000_000;
            &&& target >= 0 && tick < i64::MAX ==> 0 <= tick && tick * per_tick <= target
                * track.time_base.denom < (tick + 1) * per_tick
            &&& target < 0 && tick > i64::MIN ==> tick <= 0 && (tick - 1) * per_tick < target
                * track.time_base.denom <= tick * per_tick
        }),
{
    let per_tick = track.time_base.numer * 1_000_000_000;
    let n = target * track.time_base.denom;
    assert(target >= 0 ==> n >= 0) by (nonlinear_arith)
        requires
            n == target * track.time_base.denom,
            track.time_base.denom > 0,
    ;
    assert(target < 0 ==> n < 0) by (nonlinear_arith)
        requires
            n == target * track.time_base.denom,
            track.time_base.denom > 0,
    ;
    crate::laws::files::quotients_are_rounded_toward_zero(n, per_tick);
}

/// An export seeks for an instant before the last packet or more than one and a half seconds
/// behind it; else it reads on.
pub proof fn an_export_seeks_back_and_far_ahead(d: ExportDecoder, target: int, last: int)
    requires
        d.wf(),
        is_time_of_ticks(d.video().track().time_base, d.last(), last),
    ensures
        target < last ==> d.must_seek(target),
        target > last + 1_500_000_000 ==> d.must_seek(target),
        last <= target <= last + 1_500_000_000 ==> !d.must_seek(target),
{
    crate::laws::files::ticks_have_their_time(d.video().track().time_base, d.last(), last);
}

/// Packets are numbered from zero on; one before zero counts as far behind all others.
pub proof fn packets_are_numbered_from_zero(pts: int)
    ensures
        pts >= 0 ==> crate::seek::packet_number(pts) == pts,
        i64::MIN <= pts < 0 ==> crate::seek::packet_number(pts) > i64::MAX
            && crate::seek::packet_number(pts) - pts == 0x1_0000_0000_0000_0000,
{
}

} // verus!

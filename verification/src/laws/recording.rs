//! What a recording promises.

use vstd::prelude::*;

verus! {

/// A frame is shown until the next one was captured, in milliseconds; not at all where the
/// clock went back, and for no longer than can be told.
pub proof fn frames_are_shown_until_the_next(from: int, to: int)
    ensures
        from <= to <= from + u32::MAX ==> crate::recorder::shown_for(from, to) == to - from,
        to < from ==> crate::recorder::shown_for(from, to) == 0,
        to > from + u32::MAX ==> crate::recorder::shown_for(from, to) == u32::MAX,
{
}

/// A recording is shown frame by frame: one frame more adds the time since the frame before.
pub proof fn recordings_grow_frame_by_frame(times: Seq<u64>, now: u64)
    ensures
        crate::recorder::total_shown(Seq::empty()) == 0,
        times.len() == 0 ==> crate::recorder::total_shown(times.push(now)) == 0,
        times.len() > 0 && times.last() <= now <= times.last() + u32::MAX
            ==> crate::recorder::total_shown(times.push(now)) == crate::recorder::total_shown(times)
            + (now - times.last()),
{
    assert(times.push(now).drop_last() =~= times);
}

} // verus!

//! What undo and redo promise.

use crate::editor::EditorModel;
use crate::history::HistoryModel;
use vstd::prelude::*;

verus! {

/// Whether a change is worth a step: it changes a track or a clip, the number of assets or the
/// next ids.
pub open spec fn is_worth_a_step(a: EditorModel, b: EditorModel) -> bool {
    ||| a.video_tracks != b.video_tracks
    ||| a.audio_tracks != b.audio_tracks
    ||| a.assets.len() != b.assets.len()
    ||| a.next_clip_id != b.next_clip_id
    ||| a.next_track_id != b.next_track_id
}

/// States differ exactly where the change is worth a step.
pub proof fn steps_are_changes_of_the_timeline(a: EditorModel, b: EditorModel)
    ensures
        crate::history::differs(a, b) == is_worth_a_step(a, b),
{
}

/// A recorded step is the last that can be undone. The steps before it stay in their order;
/// with fifty of them the oldest is forgotten. Nothing is left to redo.
pub proof fn recording_keeps_the_last_fifty(h: HistoryModel, before: EditorModel, i: int)
    ensures
        ({
            let r = h.recorded(before);
            let n = h.undo.len() as int;
            &&& r.undo.len() > 0
            &&& r.undo[r.undo.len() - 1] == before
            &&& r.redo.len() == 0
            &&& r.skip == h.skip
            &&& r.baseline == h.baseline
            &&& n < 50 ==> r.undo.len() == n + 1 && (0 <= i < n ==> r.undo[i] == h.undo[i])
            &&& n >= 50 ==> r.undo.len() == n && (0 < i < n ==> r.undo[i - 1] == h.undo[i])
        }),
{
}

/// An undo brings back the state of the last step, and what was there before can be redone. Of
/// the other steps none is lost or changed. Without a step nothing changes.
pub proof fn an_undo_goes_back_one_step(h: HistoryModel, state: EditorModel, i: int)
    ensures
        ({
            let (r, now) = h.undone(state);
            let n = h.undo.len() as int;
            let k = h.redo.len() as int;
            if n == 0 {
                r == h && now == state
            } else {
                &&& now == h.undo[n - 1]
                &&& r.undo.len() == n - 1
                &&& 0 <= i < n - 1 ==> r.undo[i] == h.undo[i]
                &&& r.redo.len() == k + 1
                &&& r.redo[k] == state
                &&& 0 <= i < k ==> r.redo[i] == h.redo[i]
                &&& r.skip
                &&& r.baseline == h.baseline
            }
        }),
{
}

/// A redo brings back the state that was undone last, and what was there before can be undone.
/// Of the other steps none is lost or changed. Without one nothing changes.
pub proof fn a_redo_goes_on_one_step(h: HistoryModel, state: EditorModel, i: int)
    ensures
        ({
            let (r, now) = h.redone(state);
            let n = h.redo.len() as int;
            let k = h.undo.len() as int;
            if n == 0 {
                r == h && now == state
            } else {
                &&& now == h.redo[n - 1]
                &&& r.redo.len() == n - 1
                &&& 0 <= i < n - 1 ==> r.redo[i] == h.redo[i]
                &&& r.undo.len() == k + 1
                &&& r.undo[k] == state
                &&& 0 <= i < k ==> r.undo[i] == h.undo[i]
                &&& r.skip
                &&& r.baseline == h.baseline
            }
        }),
{
}

/// Two edits are undone one after the other, the later one first, and redone the other way
/// round.
pub proof fn two_edits_are_undone_in_turn(
    h: HistoryModel,
    first: EditorModel,
    second: EditorModel,
    third: EditorModel,
)
    ensures
        ({
            let edited = h.recorded(first).recorded(second);
            let (a, one) = edited.undone(third);
            let (b, two) = a.undone(one);
            let (c, again) = b.redone(two);
            let (d, last) = c.redone(again);
            &&& one == second
            &&& two == first
            &&& again == second
            &&& last == third
        }),
{
    let edited = h.recorded(first).recorded(second);
    let (a, one) = edited.undone(third);
    let (b, two) = a.undone(one);
    assert(a.redo =~= seq![third]);
    assert(b.redo =~= seq![third, second]);
}

/// At the end of a frame a restored state is not recorded. While the pointer is pressed, the
/// state in which it was pressed is noted and nothing is recorded. When it is released, that
/// state is recorded if the change since is worth a step; without the pointer the state before
/// the frame, if the change in the frame is.
pub proof fn frames_record_what_changed(
    h: HistoryModel,
    before: EditorModel,
    now: EditorModel,
    pointer_down: bool,
)
    ensures
        ({
            let r = h.frame_ended(before, now, pointer_down);
            if h.skip {
                r.undo == h.undo && r.redo == h.redo && !r.skip && r.baseline is None
            } else if pointer_down {
                &&& r.undo == h.undo
                &&& r.redo == h.redo
                &&& !r.skip
                &&& h.baseline matches Some(b) ==> r.baseline == Some(b)
                &&& h.baseline is None ==> r.baseline == Some(before)
            } else {
                let start = match h.baseline {
                    Some(b) => b,
                    None => before,
                };
                &&& !r.skip
                &&& r.baseline is None
                &&& is_worth_a_step(start, now) ==> r.undo.len() > 0 && r.undo[r.undo.len() - 1]
                    == start && r.redo.len() == 0 && r.undo == h.recorded(start).undo
                &&& !is_worth_a_step(start, now) ==> r.undo == h.undo && r.redo == h.redo
            }
        }),
{
}

/// No more than fifty steps are kept, whatever happens.
pub proof fn no_more_than_fifty_steps_are_kept(
    h: HistoryModel,
    before: EditorModel,
    now: EditorModel,
    pointer_down: bool,
)
    requires
        h.undo.len() + h.redo.len() <= 50,
    ensures
        h.wf(),
        ({
            let a = h.recorded(before);
            let b = h.undone(now).0;
            let c = h.redone(now).0;
            let d = h.frame_ended(before, now, pointer_down);
            &&& a.undo.len() + a.redo.len() <= 50
            &&& b.undo.len() + b.redo.len() <= 50
            &&& c.undo.len() + c.redo.len() <= 50
            &&& d.undo.len() + d.redo.len() <= 50
        }),
{
}

} // verus!

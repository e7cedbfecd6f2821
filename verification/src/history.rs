//! Undo and redo.

use crate::editor::{Clip, EditorModel, EditorState, Track};
use vstd::prelude::*;
use vstd::string::*;

verus! {

/// How many steps can be undone.
pub const MAX_UNDO: usize = 50;

/// The edits that can be taken back and those that were. Each entry is the whole state
/// before an edit.
#[derive(Debug)]
pub struct History {
    pub undo_stack: Vec<EditorState>,
    pub redo_stack: Vec<EditorState>,
    /// The current state was restored and is not to be recorded again.
    pub skip_undo_save: bool,
    /// The state in which the pointer was pressed.
    pub interaction_baseline: Option<EditorState>,
}

#[verifier::ext_equal]
pub struct HistoryModel {
    pub undo: Seq<EditorModel>,
    pub redo: Seq<EditorModel>,
    pub skip: bool,
    pub baseline: Option<EditorModel>,
}

/// A list of states, each by its model.
pub open spec fn states_view(states: Seq<EditorState>) -> Seq<EditorModel> {
    Seq::new(states.len(), |i: int| states[i]@)
}

impl View for History {
    type V = HistoryModel;

    open spec fn view(&self) -> HistoryModel {
        HistoryModel {
            undo: states_view(self.undo_stack@),
            redo: states_view(self.redo_stack@),
            skip: self.skip_undo_save,
            baseline: match self.interaction_baseline {
                Some(s) => Some(s@),
                None => None,
            },
        }
    }
}

/// Whether two states differ in what undo restores: the tracks with their clips, how many
/// assets there are and the next ids. Selection, playhead, zoom and scroll do not count.
pub open spec fn differs(a: EditorModel, b: EditorModel) -> bool {
    a.video_tracks != b.video_tracks || a.audio_tracks != b.audio_tracks || a.assets.len()
        != b.assets.len() || a.next_clip_id != b.next_clip_id || a.next_track_id != b.next_track_id
}

impl HistoryModel {
    /// No more steps are kept than can be undone.
    pub open spec fn wf(self) -> bool {
        self.undo.len() + self.redo.len() <= 50
    }

    /// The history with one more step to undo. The oldest step is forgotten if there are
    /// too many, and nothing is left to redo.
    pub open spec fn recorded(self, before: EditorModel) -> HistoryModel {
        let kept = if self.undo.len() >= 50 {
            self.undo.remove(0)
        } else {
            self.undo
        };
        HistoryModel { undo: kept.push(before), redo: Seq::empty(), ..self }
    }

    /// The history and the state after an undo.
    pub open spec fn undone(self, state: EditorModel) -> (HistoryModel, EditorModel) {
        if self.undo.len() == 0 {
            (self, state)
        } else {
            (
                HistoryModel {
                    undo: self.undo.drop_last(),
                    redo: self.redo.push(state),
                    skip: true,
                    ..self
                },
                self.undo.last(),
            )
        }
    }

    /// The history and the state after a redo.
    pub open spec fn redone(self, state: EditorModel) -> (HistoryModel, EditorModel) {
        if self.redo.len() == 0 {
            (self, state)
        } else {
            (
                HistoryModel {
                    undo: self.undo.push(state),
                    redo: self.redo.drop_last(),
                    skip: true,
                    ..self
                },
                self.redo.last(),
            )
        }
    }

    /// The history at the end of a frame. `before` is the state at its beginning.
    ///
    /// A restored state is not recorded. While the pointer is pressed nothing is recorded
    /// but the state in which it was pressed. When it is released, that state is recorded
    /// if the timeline has changed since. Without the pointer a change is recorded at once.
    pub open spec fn frame_ended(
        self,
        before: EditorModel,
        now: EditorModel,
        pointer_down: bool,
    ) -> HistoryModel {
        if self.skip {
            HistoryModel { skip: false, baseline: None, ..self }
        } else if pointer_down {
            HistoryModel {
                baseline: if self.baseline is None {
                    Some(before)
                } else {
                    self.baseline
                },
                ..self
            }
        } else {
            match self.baseline {
                Some(baseline) => {
                    let released = HistoryModel { baseline: None, ..self };
                    if differs(baseline, now) {
                        released.recorded(baseline)
                    } else {
                        released
                    }
                },
                None => if differs(before, now) {
                    self.recorded(before)
                } else {
                    self
                },
            }
        }
    }
}

fn same_clips(a: &Vec<Clip>, b: &Vec<Clip>) -> (r: bool)
    ensures
        r == (a@ == b@),
{
    if a.len() != b.len() {
        return false;
    }
    let mut i: usize = 0;
    while i < a.len()
        invariant
            a@.len() == b@.len(),
            i <= a@.len(),
            forall|j: int| 0 <= j < i ==> a@[j] == b@[j],
        decreases a@.len() - i,
    {
        if a[i] != b[i] {
            return false;
        }
        i += 1;
    }
    assert(a@ =~= b@);
    true
}

fn same_tracks(a: &Vec<Track>, b: &Vec<Track>) -> (r: bool)
    ensures
        r == (crate::editor::lane_view(a@) == crate::editor::lane_view(b@)),
{
    let ghost left = crate::editor::lane_view(a@);
    let ghost right = crate::editor::lane_view(b@);
    if a.len() != b.len() {
        assert(left.len() != right.len());
        return false;
    }
    let mut i: usize = 0;
    while i < a.len()
        invariant
            a@.len() == b@.len(),
            left == crate::editor::lane_view(a@),
            right == crate::editor::lane_view(b@),
            i <= a@.len(),
            forall|j: int| 0 <= j < i ==> a@[j]@ == b@[j]@,
        decreases a@.len() - i,
    {
        let x: &Track = &a[i];
        let y: &Track = &b[i];
        let same: bool = x.id == y.id && x.name == y.name && x.is_video == y.is_video && x.is_muted
            == y.is_muted && x.is_hidden == y.is_hidden && x.is_solo == y.is_solo && x.volume
            == y.volume && same_clips(&x.clips, &y.clips);
        if !same {
            assert(left[i as int] != right[i as int]);
            return false;
        }
        i += 1;
    }
    assert(left =~= right);
    true
}

/// Whether two states differ in a way worth recording.
pub fn timeline_differs(a: &EditorState, b: &EditorState) -> (r: bool)
    ensures
        r == differs(a@, b@),
{
    !same_tracks(&a.video_tracks, &b.video_tracks) || !same_tracks(
        &a.audio_tracks,
        &b.audio_tracks,
    ) || a.assets.len() != b.assets.len() || a.next_clip_id != b.next_clip_id || a.next_track_id
        != b.next_track_id
}

impl History {
    pub fn new() -> (r: History)
        ensures
            r@ == (HistoryModel {
                undo: Seq::empty(),
                redo: Seq::empty(),
                skip: false,
                baseline: None,
            }),
            r@.wf(),
    {
        let r = History {
            undo_stack: Vec::new(),
            redo_stack: Vec::new(),
            skip_undo_save: false,
            interaction_baseline: None,
        };
        assert(r@.undo =~= Seq::empty());
        assert(r@.redo =~= Seq::empty());
        r
    }

    /// Records the state before an edit.
    pub fn push_undo_state(&mut self, snapshot: EditorState)
        ensures
            final(self)@ == old(self)@.recorded(snapshot@),
            old(self)@.wf() ==> final(self)@.wf(),
    {
        if self.undo_stack.len() >= MAX_UNDO {
            let ghost before = self.undo_stack@;
            self.undo_stack.remove(0);
            assert(states_view(self.undo_stack@) =~= states_view(before).remove(0));
        }
        let ghost kept = self.undo_stack@;
        self.undo_stack.push(snapshot);
        assert(states_view(self.undo_stack@) =~= states_view(kept).push(snapshot@));
        self.redo_stack.clear();
        assert(self@.redo =~= Seq::empty());
    }

    /// Takes back the last recorded edit, if there is one; says whether there was.
    pub fn undo(&mut self, state: &mut EditorState) -> (r: bool)
        ensures
            (final(self)@, final(state)@) == old(self)@.undone(old(state)@),
            r == (old(self)@.undo.len() > 0),
            old(self)@.wf() ==> final(self)@.wf(),
    {
        let ghost stack = self.undo_stack@;
        assert(states_view(stack).len() == stack.len());
        match self.undo_stack.pop() {
            Some(mut previous) => {
                assert(states_view(self.undo_stack@) =~= states_view(stack).drop_last());
                core::mem::swap(state, &mut previous);
                let ghost redo = self.redo_stack@;
                self.redo_stack.push(previous);
                assert(states_view(self.redo_stack@) =~= states_view(redo).push(old(state)@));
                self.skip_undo_save = true;
                true
            },
            None => false,
        }
    }

    /// Repeats the edit that was taken back last, if there is one; says whether there was.
    pub fn redo(&mut self, state: &mut EditorState) -> (r: bool)
        ensures
            (final(self)@, final(state)@) == old(self)@.redone(old(state)@),
            r == (old(self)@.redo.len() > 0),
            old(self)@.wf() ==> final(self)@.wf(),
    {
        let ghost stack = self.redo_stack@;
        assert(states_view(stack).len() == stack.len());
        match self.redo_stack.pop() {
            Some(mut next) => {
                assert(states_view(self.redo_stack@) =~= states_view(stack).drop_last());
                core::mem::swap(state, &mut next);
                let ghost undo = self.undo_stack@;
                self.undo_stack.push(next);
                assert(states_view(self.undo_stack@) =~= states_view(undo).push(old(state)@));
                self.skip_undo_save = true;
                true
            },
            None => false,
        }
    }

    /// Records what changed during a frame. `before` is the state at its beginning.
    pub fn end_frame(&mut self, before: EditorState, now: &EditorState, pointer_down: bool)
        ensures
            final(self)@ == old(self)@.frame_ended(before@, now@, pointer_down),
            old(self)@.wf() ==> final(self)@.wf(),
    {
        if self.skip_undo_save {
            self.skip_undo_save = false;
            self.interaction_baseline = None;
        } else if pointer_down {
            if self.interaction_baseline.is_none() {
                self.interaction_baseline = Some(before);
            }
        } else {
            match self.interaction_baseline.take() {
                Some(baseline) => {
                    if timeline_differs(&baseline, now) {
                        self.push_undo_state(baseline);
                    }
                },
                None => {
                    if timeline_differs(&before, now) {
                        self.push_undo_state(before);
                    }
                },
            }
        }
    }
}

/// An undo right after an edit was recorded brings back the state before the edit.
pub proof fn undo_reverts(h: HistoryModel, before: EditorModel, now: EditorModel)
    ensures
        h.recorded(before).undone(now).1 == before,
{
}

/// A redo after an undo brings back the state and the steps to undo and redo.
pub proof fn redo_reverts_undo(h: HistoryModel, state: EditorModel)
    requires
        h.undo.len() > 0,
    ensures
        ({
            let (after, restored) = h.undone(state);
            let (again, now) = after.redone(restored);
            &&& now == state
            &&& again.undo == h.undo
            &&& again.redo == h.redo
        }),
{
    let (after, restored) = h.undone(state);
    let (again, now) = after.redone(restored);
    assert(again.undo =~= h.undo);
    assert(again.redo =~= h.redo);
}

/// An undo after a redo brings back the state and the steps to undo and redo.
pub proof fn undo_reverts_redo(h: HistoryModel, state: EditorModel)
    requires
        h.redo.len() > 0,
    ensures
        ({
            let (after, restored) = h.redone(state);
            let (again, now) = after.undone(restored);
            &&& now == state
            &&& again.undo == h.undo
            &&& again.redo == h.redo
        }),
{
    let (after, restored) = h.redone(state);
    let (again, now) = after.undone(restored);
    assert(again.undo =~= h.undo);
    assert(again.redo =~= h.redo);
}

/// The history after a run of frames during which the pointer stays pressed. The states
/// are those between the frames.
pub open spec fn dragged(h: HistoryModel, states: Seq<EditorModel>) -> HistoryModel
    decreases states.len(),
{
    if states.len() <= 1 {
        h
    } else {
        dragged(h, states.drop_last()).frame_ended(
            states[states.len() - 2],
            states.last(),
            true,
        )
    }
}

proof fn lemma_dragged(h: HistoryModel, states: Seq<EditorModel>)
    requires
        !h.skip,
        h.baseline is None,
    ensures
        dragged(h, states) == if states.len() <= 1 {
            h
        } else {
            HistoryModel { baseline: Some(states[0]), ..h }
        },
    decreases states.len(),
{
    if states.len() > 1 {
        lemma_dragged(h, states.drop_last());
    }
}

/// A drag of any length becomes one step: when the pointer is released, the state before
/// the drag is recorded if the timeline has changed, and nothing else.
pub proof fn a_drag_is_one_step(h: HistoryModel, states: Seq<EditorModel>, before: EditorModel)
    requires
        !h.skip,
        h.baseline is None,
        states.len() > 1,
    ensures
        dragged(h, states).frame_ended(before, states.last(), false) == if differs(
            states[0],
            states.last(),
        ) {
            h.recorded(states[0])
        } else {
            h
        },
{
    lemma_dragged(h, states);
}

/// What undo does not restore is never recorded: selection, playhead, play state, tool,
/// zoom and scroll.
pub proof fn views_are_not_recorded(h: HistoryModel, before: EditorModel, now: EditorModel)
    requires
        !h.skip,
        h.baseline is None,
        now == (EditorModel {
            playhead: now.playhead,
            is_playing: now.is_playing,
            selected_tool: now.selected_tool,
            selected_clip: now.selected_clip,
            zoom_factor: now.zoom_factor,
            scroll_offset: now.scroll_offset,
            ..before
        }),
    ensures
        h.frame_ended(before, now, false) == h,
{
}

/// The frame that ends after an undo or a redo records nothing.
pub proof fn restoring_is_not_recorded(
    h: HistoryModel,
    state: EditorModel,
    before: EditorModel,
    now: EditorModel,
    pointer_down: bool,
)
    requires
        h.undo.len() > 0,
    ensures
        ({
            let after = h.undone(state).0;
            let ended = after.frame_ended(before, now, pointer_down);
            ended.undo == after.undo && ended.redo == after.redo
        }),
{
}

} // verus!

//! Row intents: what the user asked of one row since the last pass.

use std::rc::Rc;
use vstd::prelude::*;
use livesplit_core::RunEditor;
use crate::command::{
    gesture_command, lemma_ran_add, lemma_ran_none, lemma_ran_one, lemma_ran_two, ran, Command,
};
use crate::engine::{
    editor_rows, largest_seconds, parse_and_set_active_best_segment_time,
    parse_and_set_active_segment_time, parse_and_set_active_split_time, parse_time,
    segment_time_fits, select_additionally, select_only, select_range, selection_order,
    set_active_name, split_seconds, table_of, time_accepted, time_read, unselect,
};
use crate::model::{names_kept, times_kept, times_of, TableModel};
use crate::reach::{larger, SECONDS_LIMIT};
use crate::selection::{
    classified, classify, gestured, only, Modifiers, SelectionGesture, SelectionOrder,
};
use crate::snapshot::{share, Snapshot};

verus! {

/// The characters of a pending text, if there is one.
pub open spec fn text_of(pending: Option<String>) -> Option<Seq<char>> {
    match pending {
        Some(text) => Some(text@),
        None => None,
    }
}

/// Whether a pending text asks for an edit. Empty text asks for nothing.
pub open spec fn carries_text(pending: Option<Seq<char>>) -> bool {
    pending matches Some(text) && text.len() > 0
}

/// What is recorded for a cell whose text on screen is `reported` while the
/// snapshot has `current`: the reported text if the two differ, and nothing
/// if they are equal.
pub open spec fn detected(reported: Seq<char>, current: Seq<char>) -> Option<Seq<char>> {
    if reported == current {
        None
    } else {
        Some(reported)
    }
}

/// Compares the text that the user interface reports for a cell with the text
/// that the snapshot has for it.
pub fn detect_edit(reported: String, current: &String) -> (pending: Option<String>)
    ensures
        text_of(pending) == detected(reported@, current@),
{
    if reported == *current {
        None
    } else {
        Some(reported)
    }
}

/// The commands for one cell: select the row alone, then hand over the
/// text. Text that asks for no edit gives no command.
pub open spec fn edit_commands(index: usize, pending: Option<Seq<char>>, command: Command) -> Seq<
    Command,
> {
    if carries_text(pending) {
        seq![Command::SelectOnly(index), command]
    } else {
        Seq::empty()
    }
}

/// The command for a gesture on the row, if there is one.
pub open spec fn gesture_commands(index: usize, gesture: Option<SelectionGesture>) -> Seq<Command> {
    match gesture {
        Some(gesture) => seq![gesture_command(gesture, index)],
        None => Seq::empty(),
    }
}

/// The content of a row intent.
pub struct IntentModel {
    /// The row that the intent is for.
    pub index: usize,
    /// New text for the name.
    pub pending_name: Option<Seq<char>>,
    /// New text for the split time.
    pub pending_split: Option<Seq<char>>,
    /// New text for the segment time.
    pub pending_segment_time: Option<Seq<char>>,
    /// New text for the best segment time.
    pub pending_best_segment_time: Option<Seq<char>>,
    /// The selection gesture made on the row.
    pub selection_gesture: Option<SelectionGesture>,
}

impl IntentModel {
    /// The intent for row `index` that asks for nothing.
    pub open spec fn blank(index: usize) -> IntentModel {
        IntentModel {
            index,
            pending_name: None,
            pending_split: None,
            pending_segment_time: None,
            pending_best_segment_time: None,
            selection_gesture: None,
        }
    }

    /// Whether some cell of the row is to be edited.
    pub open spec fn has_edit(self) -> bool {
        ||| carries_text(self.pending_name)
        ||| carries_text(self.pending_split)
        ||| carries_text(self.pending_segment_time)
        ||| carries_text(self.pending_best_segment_time)
    }

    /// Whether the intent asks anything of the run editor.
    pub open spec fn has_work(self) -> bool {
        self.has_edit() || self.selection_gesture is Some
    }

    /// Whether the intent holds text for a time cell that the run editor
    /// takes for a time.
    pub open spec fn has_accepted_time(self) -> bool {
        ||| carries_text(self.pending_split) && time_accepted(self.pending_split->0)
        ||| carries_text(self.pending_segment_time) && time_accepted(self.pending_segment_time->0)
        ||| carries_text(self.pending_best_segment_time) && time_accepted(
            self.pending_best_segment_time->0,
        )
    }

    /// The commands for the name.
    pub open spec fn name_commands(self) -> Seq<Command> {
        edit_commands(self.index, self.pending_name, Command::SetName(self.pending_name->0))
    }

    /// The commands for the split time.
    pub open spec fn split_commands(self) -> Seq<Command> {
        edit_commands(
            self.index,
            self.pending_split,
            Command::SetSplitTime(self.pending_split->0),
        )
    }

    /// The commands for the segment time.
    pub open spec fn segment_commands(self) -> Seq<Command> {
        edit_commands(
            self.index,
            self.pending_segment_time,
            Command::SetSegmentTime(self.pending_segment_time->0),
        )
    }

    /// The commands for the best segment time.
    pub open spec fn best_commands(self) -> Seq<Command> {
        edit_commands(
            self.index,
            self.pending_best_segment_time,
            Command::SetBestSegmentTime(self.pending_best_segment_time->0),
        )
    }

    /// The command for the gesture.
    pub open spec fn gesture_commands(self) -> Seq<Command> {
        gesture_commands(self.index, self.selection_gesture)
    }

    /// The commands that the intent stands for, in the order in which the
    /// run editor gets them: name, split time, segment time, best segment
    /// time, each after the row was selected alone, and the gesture last.
    pub open spec fn commands(self) -> Seq<Command> {
        self.name_commands() + self.split_commands() + self.segment_commands()
            + self.best_commands() + self.gesture_commands()
    }

    /// What bounds the split times of the table once the split time of the
    /// intent is set, if `bound` bounds them before: the larger of the bound
    /// and the new split time.
    pub open spec fn bound_after_split(self, bound: int) -> int {
        if carries_text(self.pending_split) {
            match time_read(self.pending_split->0) {
                Some(seconds) => larger(bound, seconds),
                None => bound,
            }
        } else {
            bound
        }
    }

    /// Whether the run editor can carry out the intent on a table whose
    /// split times `bound` bounds. Only text for the segment time that sets
    /// a time can stand in the way.
    pub open spec fn reaches(self, bound: int) -> bool {
        carries_text(self.pending_segment_time) ==> segment_time_fits(
            self.bound_after_split(bound),
            self.pending_segment_time->0,
        )
    }

    /// What bounds the split times of the table once the intent is applied,
    /// if `bound` bounds them before.
    pub open spec fn bound_after(self, bound: int) -> int {
        let split = self.bound_after_split(bound);
        if carries_text(self.pending_segment_time) {
            match time_read(self.pending_segment_time->0) {
                Some(seconds) => split + seconds + 1,
                None => split,
            }
        } else {
            split
        }
    }

    /// Whether the intent holds text for the segment time that sets a time.
    pub open spec fn adds_time(self) -> bool {
        carries_text(self.pending_segment_time) && time_read(self.pending_segment_time->0)
            is Some
    }

    /// Whether the row is the active row once the intent is applied: it asks
    /// for work, and if its gesture is to unselect the row, an edit has made
    /// the row the only selected one before, which the run editor does not
    /// unselect.
    pub open spec fn ends_active(self) -> bool {
        &&& self.has_work()
        &&& self.selection_gesture == Some(SelectionGesture::Unselect) ==> self.has_edit()
    }

    /// The name of the row after the intent was applied to a row named
    /// `before`.
    pub open spec fn name_after(self, before: Seq<char>) -> Seq<char> {
        if carries_text(self.pending_name) {
            self.pending_name->0
        } else {
            before
        }
    }

    /// The selection after the intent was applied to a table whose selection
    /// was `order`. Every edit first makes the row the only selected one; the
    /// gesture comes last.
    pub open spec fn order_after(self, order: SelectionOrder) -> SelectionOrder {
        let edited = if self.has_edit() {
            only(self.index)
        } else {
            order
        };
        match self.selection_gesture {
            Some(gesture) => gestured(edited, gesture, self.index),
            None => edited,
        }
    }
}

/// What applying `intent` to the table `before` comes to, in sum: `after` has
/// the selection and the names that the intent gives it, and the time cells
/// are as they were unless the intent holds text that the run editor takes
/// for a time. What the time cells read in that case follows from the
/// commands that were carried out, see [`IntentModel::commands`].
pub open spec fn row_applied(before: TableModel, intent: IntentModel, after: TableModel) -> bool {
    &&& after.order == intent.order_after(before.order)
    &&& after.rows.len() == before.rows.len()
    &&& forall|j: int|
        0 <= j < before.rows.len() ==> (#[trigger] after.rows[j]).name == if j == intent.index {
            intent.name_after(before.rows[j].name)
        } else {
            before.rows[j].name
        }
    &&& !intent.has_accepted_time() ==> times_kept(before.rows, after.rows)
}

/// What the user asked of one row: new text for some of its cells, and at
/// most one selection gesture. It is filled while a frame is handled and
/// emptied by [`RowIntent::apply`].
pub struct RowIntent {
    snapshot: Rc<Snapshot>,
    index: usize,
    pending_name: Option<String>,
    pending_split: Option<String>,
    pending_segment_time: Option<String>,
    pending_best_segment_time: Option<String>,
    selection_gesture: Option<SelectionGesture>,
}

impl View for RowIntent {
    type V = IntentModel;

    closed spec fn view(&self) -> IntentModel {
        IntentModel {
            index: self.index,
            pending_name: text_of(self.pending_name),
            pending_split: text_of(self.pending_split),
            pending_segment_time: text_of(self.pending_segment_time),
            pending_best_segment_time: text_of(self.pending_best_segment_time),
            selection_gesture: self.selection_gesture,
        }
    }
}

impl RowIntent {
    #[verifier::type_invariant]
    spec fn in_snapshot(&self) -> bool {
        self.index < self.snapshot@.len()
    }

    /// The snapshot that the intent is compared with.
    pub closed spec fn shown(&self) -> Snapshot {
        *self.snapshot
    }

    /// An intent for row `index` of `snapshot` that asks for nothing.
    pub fn new(snapshot: Rc<Snapshot>, index: usize) -> (intent: RowIntent)
        requires
            index < snapshot@.len(),
        ensures
            intent@ == IntentModel::blank(index),
            intent.shown() == *snapshot,
    {
        RowIntent {
            snapshot,
            index,
            pending_name: None,
            pending_split: None,
            pending_segment_time: None,
            pending_best_segment_time: None,
            selection_gesture: None,
        }
    }

    /// The row that the intent is for. It is a row of the snapshot.
    pub fn index(&self) -> (index: usize)
        ensures
            index == self@.index,
            index < self.shown()@.len(),
    {
        proof {
            use_type_invariant(self);
        }
        self.index
    }

    /// The snapshot that the intent is compared with.
    pub fn snapshot(&self) -> (snapshot: &Rc<Snapshot>)
        ensures
            **snapshot == self.shown(),
    {
        &self.snapshot
    }

    /// The new text for the name, if any.
    pub fn pending_name(&self) -> (pending: &Option<String>)
        ensures
            text_of(*pending) == self@.pending_name,
    {
        &self.pending_name
    }

    /// The new text for the split time, if any.
    pub fn pending_split(&self) -> (pending: &Option<String>)
        ensures
            text_of(*pending) == self@.pending_split,
    {
        &self.pending_split
    }

    /// The new text for the segment time, if any.
    pub fn pending_segment_time(&self) -> (pending: &Option<String>)
        ensures
            text_of(*pending) == self@.pending_segment_time,
    {
        &self.pending_segment_time
    }

    /// The new text for the best segment time, if any.
    pub fn pending_best_segment_time(&self) -> (pending: &Option<String>)
        ensures
            text_of(*pending) == self@.pending_best_segment_time,
    {
        &self.pending_best_segment_time
    }

    /// The selection gesture made on the row, if any.
    pub fn selection_gesture(&self) -> (gesture: Option<SelectionGesture>)
        ensures
            gesture == self@.selection_gesture,
    {
        self.selection_gesture
    }

    /// Whether the intent asks anything of the run editor.
    pub fn has_work(&self) -> (work: bool)
        ensures
            work == self@.has_work(),
    {
        has_text(&self.pending_name) || has_text(&self.pending_split) || has_text(
            &self.pending_segment_time,
        ) || has_text(&self.pending_best_segment_time) || self.selection_gesture.is_some()
    }

    /// Two intents are the same when they are for the same row, hold the same
    /// pending text and gesture, and are compared with the same version of
    /// the table.
    pub open spec fn same_as(&self, other: &RowIntent) -> bool {
        &&& self@ == other@
        &&& self.shown().version_of() == other.shown().version_of()
    }

    /// Whether the two intents are the same.
    #[verifier::when_used_as_spec(same_as)]
    pub fn same(&self, other: &RowIntent) -> (same: bool)
        ensures
            same == self.same_as(other),
    {
        self.index == other.index && self.snapshot.version() == other.snapshot.version()
            && same_text(&self.pending_name, &other.pending_name) && same_text(
            &self.pending_split,
            &other.pending_split,
        ) && same_text(&self.pending_segment_time, &other.pending_segment_time) && same_text(
            &self.pending_best_segment_time,
            &other.pending_best_segment_time,
        ) && self.selection_gesture == other.selection_gesture
    }

    /// Records the text that the name cell shows on screen: as a pending edit
    /// if it differs from the snapshot, as no edit if it does not.
    pub fn edit_name(&mut self, text: String)
        ensures
            final(self)@ == (IntentModel {
                pending_name: detected(
                    text@,
                    old(self).shown()@[old(self)@.index as int].text.name,
                ),
                ..old(self)@
            }),
            final(self).shown() == old(self).shown(),
    {
        proof {
            use_type_invariant(&*self);
        }
        let pending = detect_edit(text, &self.snapshot.segment(self.index).name);
        self.pending_name = pending;
    }

    /// Records the text that the split time cell shows on screen: as a
    /// pending edit if it differs from the snapshot, as no edit if it does
    /// not.
    pub fn edit_split_time(&mut self, text: String)
        ensures
            final(self)@ == (IntentModel {
                pending_split: detected(
                    text@,
                    old(self).shown()@[old(self)@.index as int].text.times.split_time,
                ),
                ..old(self)@
            }),
            final(self).shown() == old(self).shown(),
    {
        proof {
            use_type_invariant(&*self);
        }
        let pending = detect_edit(text, &self.snapshot.segment(self.index).split_time);
        self.pending_split = pending;
    }

    /// Records the text that the segment time cell shows on screen: as a
    /// pending edit if it differs from the snapshot, as no edit if it does
    /// not.
    pub fn edit_segment_time(&mut self, text: String)
        ensures
            final(self)@ == (IntentModel {
                pending_segment_time: detected(
                    text@,
                    old(self).shown()@[old(self)@.index as int].text.times.segment_time,
                ),
                ..old(self)@
            }),
            final(self).shown() == old(self).shown(),
    {
        proof {
            use_type_invariant(&*self);
        }
        let pending = detect_edit(text, &self.snapshot.segment(self.index).segment_time);
        self.pending_segment_time = pending;
    }

    /// Records the text that the best segment time cell shows on screen: as
    /// a pending edit if it differs from the snapshot, as no edit if it does
    /// not.
    pub fn edit_best_segment_time(&mut self, text: String)
        ensures
            final(self)@ == (IntentModel {
                pending_best_segment_time: detected(
                    text@,
                    old(self).shown()@[old(self)@.index as int].text.times.best_segment_time,
                ),
                ..old(self)@
            }),
            final(self).shown() == old(self).shown(),
    {
        proof {
            use_type_invariant(&*self);
        }
        let pending = detect_edit(text, &self.snapshot.segment(self.index).best_segment_time);
        self.pending_best_segment_time = pending;
    }

    /// Records `gesture` as the selection gesture made on the row. It takes
    /// the place of an earlier one: a row carries at most one.
    pub fn request(&mut self, gesture: SelectionGesture)
        ensures
            final(self)@ == (IntentModel { selection_gesture: Some(gesture), ..old(self)@ }),
            final(self).shown() == old(self).shown(),
    {
        proof {
            use_type_invariant(&*self);
        }
        self.selection_gesture = Some(gesture);
    }

    /// Records a pointer press on the row. The press is classified by the
    /// selection state that the snapshot shows for the row. A press that
    /// stands for no gesture leaves the intent as it is.
    pub fn pointer_down(&mut self, mods: Modifiers)
        ensures
            final(self)@ == (IntentModel {
                selection_gesture: match classified(
                    old(self).shown()@[old(self)@.index as int].selection,
                    mods,
                ) {
                    Some(gesture) => Some(gesture),
                    None => old(self)@.selection_gesture,
                },
                ..old(self)@
            }),
            final(self).shown() == old(self).shown(),
    {
        proof {
            use_type_invariant(&*self);
        }
        match classify(self.snapshot.selection(self.index), mods) {
            Some(gesture) => {
                self.selection_gesture = Some(gesture);
            },
            None => {},
        }
    }

    /// Tests whether the run editor can carry out the intent on a table
    /// whose split times `bound` bounds, and gives the bound that holds
    /// afterwards. Nothing is handed to the run editor. The result is `None`
    /// when the intent is out of reach.
    pub fn reach(&self, bound: u64) -> (after: Option<u64>)
        requires
            bound <= SECONDS_LIMIT,
        ensures
            match after {
                Some(after) => self@.reaches(bound as int) && after == self@.bound_after(
                    bound as int,
                ) && after <= SECONDS_LIMIT,
                None => !self@.reaches(bound as int),
            },
    {
        let split = match seconds_read(&self.pending_split) {
            Some(seconds) => if seconds > bound {
                seconds
            } else {
                bound
            },
            None => bound,
        };
        match seconds_read(&self.pending_segment_time) {
            Some(seconds) => {
                if split + seconds + 1 < SECONDS_LIMIT {
                    Some(split + seconds + 1)
                } else {
                    None
                }
            },
            None => Some(split),
        }
    }

    /// Carries the intent to the run editor and empties it.
    ///
    /// Each pending text that is not empty is applied in turn: name, split
    /// time, segment time, best segment time. Before each of them the row is
    /// made the only selected row, so that the edit goes to this row whatever
    /// row was active before. Text that the run editor does not take for a
    /// time is dropped without a trace. The selection gesture comes last.
    /// The result tells whether the run editor was asked anything.
    ///
    /// The run editor aborts when its times overflow, so the intent must be
    /// within reach of the largest split time of the table.
    pub fn apply(&mut self, editor: &mut RunEditor) -> (changed: bool)
        requires
            old(self)@.index < editor_rows(*old(editor)).len(),
            selection_order(*old(editor)).len() > 0,
            old(self)@.reaches(largest_seconds(*old(editor))),
        ensures
            changed == old(self)@.has_work(),
            final(self)@ == IntentModel::blank(old(self)@.index),
            final(self).shown() == old(self).shown(),
            ran(*old(editor), old(self)@.commands(), *final(editor)),
            row_applied(table_of(*old(editor)), old(self)@, table_of(*final(editor))),
            selection_order(*final(editor)).len() > 0,
            largest_seconds(*final(editor)) <= old(self)@.bound_after(
                largest_seconds(*old(editor)),
            ),
            !changed ==> *final(editor) == *old(editor),
    {
        proof {
            use_type_invariant(&*self);
        }
        let ghost asked = self@;
        let ghost first = *editor;
        let index = self.index;
        let named = apply_name(editor, index, &self.pending_name);
        self.pending_name = None;
        let ghost after_name = *editor;
        let split = apply_split_time(editor, index, &self.pending_split);
        self.pending_split = None;
        let ghost after_split = *editor;
        let segment = apply_segment_time(editor, index, &self.pending_segment_time);
        self.pending_segment_time = None;
        let ghost after_segment = *editor;
        let best = apply_best_segment_time(editor, index, &self.pending_best_segment_time);
        self.pending_best_segment_time = None;
        let ghost after_best = *editor;
        let gesture = self.selection_gesture;
        self.selection_gesture = None;
        let gestured = apply_gesture(editor, index, gesture);
        proof {
            lemma_ran_add(
                first,
                asked.name_commands(),
                after_name,
                asked.split_commands(),
                after_split,
            );
            lemma_ran_add(
                first,
                asked.name_commands() + asked.split_commands(),
                after_split,
                asked.segment_commands(),
                after_segment,
            );
            lemma_ran_add(
                first,
                asked.name_commands() + asked.split_commands() + asked.segment_commands(),
                after_segment,
                asked.best_commands(),
                after_best,
            );
            lemma_ran_add(
                first,
                asked.name_commands() + asked.split_commands() + asked.segment_commands()
                    + asked.best_commands(),
                after_best,
                asked.gesture_commands(),
                *editor,
            );
            assert(times_of(editor_rows(after_name)) =~= times_of(editor_rows(first)));
        }
        named || split || segment || best || gestured
    }
}

/// How an edit of one cell leaves the run editor when the cell had no text
/// that asks for an edit, and what every edit keeps when it had.
spec fn cell_kept(before: RunEditor, index: usize, changed: bool, after: RunEditor) -> bool {
    if changed {
        &&& selection_order(after) == only(index)
        &&& names_kept(editor_rows(before), editor_rows(after))
    } else {
        after == before
    }
}

/// Hands the text for the name to the run editor, if it asks for an edit.
fn apply_name(editor: &mut RunEditor, index: usize, pending: &Option<String>) -> (changed: bool)
    requires
        index < editor_rows(*old(editor)).len(),
    ensures
        changed == carries_text(text_of(*pending)),
        ran(
            *old(editor),
            edit_commands(index, text_of(*pending), Command::SetName(text_of(*pending)->0)),
            *final(editor),
        ),
        changed ==> selection_order(*final(editor)) == only(index),
        changed ==> editor_rows(*final(editor)) == editor_rows(*old(editor)).update(
            index as int,
            editor_rows(*old(editor))[index as int].renamed(text_of(*pending)->0),
        ),
        split_seconds(*final(editor)) == split_seconds(*old(editor)),
        !changed ==> *final(editor) == *old(editor),
{
    match pending {
        Some(text) => {
            if !text.as_str().is_empty() {
                let ghost before = *editor;
                select_only(editor, index);
                let ghost selected = *editor;
                set_active_name(editor, text.as_str());
                proof {
                    lemma_ran_two(
                        before,
                        Command::SelectOnly(index),
                        selected,
                        Command::SetName(text@),
                        *editor,
                    );
                }
                return true;
            }
        },
        None => {},
    }
    proof {
        lemma_ran_none(*editor, *editor);
    }
    false
}

/// Hands the text for the split time to the run editor, if it asks for an
/// edit.
fn apply_split_time(editor: &mut RunEditor, index: usize, pending: &Option<String>) -> (changed:
    bool)
    requires
        index < editor_rows(*old(editor)).len(),
    ensures
        changed == carries_text(text_of(*pending)),
        ran(
            *old(editor),
            edit_commands(index, text_of(*pending), Command::SetSplitTime(text_of(*pending)->0)),
            *final(editor),
        ),
        cell_kept(*old(editor), index, changed, *final(editor)),
        changed ==> largest_seconds(*final(editor)) <= match time_read(text_of(*pending)->0) {
            Some(seconds) => larger(largest_seconds(*old(editor)), seconds),
            None => largest_seconds(*old(editor)),
        },
        changed && !time_accepted(text_of(*pending)->0) ==> editor_rows(*final(editor))
            == editor_rows(*old(editor)),
{
    match pending {
        Some(text) => {
            if !text.as_str().is_empty() {
                let ghost before = *editor;
                select_only(editor, index);
                let ghost selected = *editor;
                let _ = parse_and_set_active_split_time(editor, text.as_str());
                proof {
                    lemma_ran_two(
                        before,
                        Command::SelectOnly(index),
                        selected,
                        Command::SetSplitTime(text@),
                        *editor,
                    );
                }
                return true;
            }
        },
        None => {},
    }
    proof {
        lemma_ran_none(*editor, *editor);
    }
    false
}

/// Hands the text for the segment time to the run editor, if it asks for an
/// edit.
fn apply_segment_time(editor: &mut RunEditor, index: usize, pending: &Option<String>) -> (changed:
    bool)
    requires
        index < editor_rows(*old(editor)).len(),
        carries_text(text_of(*pending)) ==> segment_time_fits(
            largest_seconds(*old(editor)),
            text_of(*pending)->0,
        ),
    ensures
        changed == carries_text(text_of(*pending)),
        ran(
            *old(editor),
            edit_commands(
                index,
                text_of(*pending),
                Command::SetSegmentTime(text_of(*pending)->0),
            ),
            *final(editor),
        ),
        cell_kept(*old(editor), index, changed, *final(editor)),
        changed ==> largest_seconds(*final(editor)) <= match time_read(text_of(*pending)->0) {
            Some(seconds) => largest_seconds(*old(editor)) + seconds + 1,
            None => largest_seconds(*old(editor)),
        },
        changed && !time_accepted(text_of(*pending)->0) ==> editor_rows(*final(editor))
            == editor_rows(*old(editor)),
{
    match pending {
        Some(text) => {
            if !text.as_str().is_empty() {
                let ghost before = *editor;
                select_only(editor, index);
                let ghost selected = *editor;
                let _ = parse_and_set_active_segment_time(editor, text.as_str());
                proof {
                    lemma_ran_two(
                        before,
                        Command::SelectOnly(index),
                        selected,
                        Command::SetSegmentTime(text@),
                        *editor,
                    );
                }
                return true;
            }
        },
        None => {},
    }
    proof {
        lemma_ran_none(*editor, *editor);
    }
    false
}

/// Hands the text for the best segment time to the run editor, if it asks
/// for an edit.
fn apply_best_segment_time(editor: &mut RunEditor, index: usize, pending: &Option<String>) -> (changed:
    bool)
    requires
        index < editor_rows(*old(editor)).len(),
    ensures
        changed == carries_text(text_of(*pending)),
        ran(
            *old(editor),
            edit_commands(
                index,
                text_of(*pending),
                Command::SetBestSegmentTime(text_of(*pending)->0),
            ),
            *final(editor),
        ),
        cell_kept(*old(editor), index, changed, *final(editor)),
        largest_seconds(*final(editor)) == largest_seconds(*old(editor)),
        changed && !time_accepted(text_of(*pending)->0) ==> editor_rows(*final(editor))
            == editor_rows(*old(editor)),
{
    match pending {
        Some(text) => {
            if !text.as_str().is_empty() {
                let ghost before = *editor;
                select_only(editor, index);
                let ghost selected = *editor;
                let _ = parse_and_set_active_best_segment_time(editor, text.as_str());
                proof {
                    lemma_ran_two(
                        before,
                        Command::SelectOnly(index),
                        selected,
                        Command::SetBestSegmentTime(text@),
                        *editor,
                    );
                }
                return true;
            }
        },
        None => {},
    }
    proof {
        lemma_ran_none(*editor, *editor);
    }
    false
}

/// Hands the gesture to the run editor, if there is one.
fn apply_gesture(editor: &mut RunEditor, index: usize, gesture: Option<SelectionGesture>) -> (changed:
    bool)
    requires
        index < editor_rows(*old(editor)).len(),
        selection_order(*old(editor)).len() > 0,
    ensures
        changed == gesture is Some,
        ran(*old(editor), gesture_commands(index, gesture), *final(editor)),
        selection_order(*final(editor)) == match gesture {
            Some(gesture) => gestured(selection_order(*old(editor)), gesture, index),
            None => selection_order(*old(editor)),
        },
        selection_order(*final(editor)).len() > 0,
        editor_rows(*final(editor)) == editor_rows(*old(editor)),
        split_seconds(*final(editor)) == split_seconds(*old(editor)),
        !changed ==> *final(editor) == *old(editor),
{
    let ghost before = *editor;
    let changed = match gesture {
        Some(SelectionGesture::Only) => {
            select_only(editor, index);
            true
        },
        Some(SelectionGesture::Additionally) => {
            select_additionally(editor, index);
            true
        },
        Some(SelectionGesture::Range) => {
            select_range(editor, index);
            true
        },
        Some(SelectionGesture::Unselect) => {
            unselect(editor, index);
            true
        },
        None => false,
    };
    proof {
        if gesture is Some {
            lemma_ran_one(before, gesture_command(gesture->0, index), *editor);
        } else {
            lemma_ran_none(before, *editor);
        }
    }
    changed
}

impl Clone for RowIntent {
    /// A second intent for the same row with the same content, holding the
    /// same snapshot.
    fn clone(&self) -> (copy: RowIntent)
        ensures
            copy@ == self@,
            copy.shown() == self.shown(),
    {
        proof {
            use_type_invariant(self);
        }
        RowIntent {
            snapshot: share(&self.snapshot),
            index: self.index,
            pending_name: copy_text(&self.pending_name),
            pending_split: copy_text(&self.pending_split),
            pending_segment_time: copy_text(&self.pending_segment_time),
            pending_best_segment_time: copy_text(&self.pending_best_segment_time),
            selection_gesture: self.selection_gesture,
        }
    }
}

/// A copy of a pending text.
fn copy_text(pending: &Option<String>) -> (copy: Option<String>)
    ensures
        text_of(copy) == text_of(*pending),
{
    match pending {
        Some(text) => Some(text.clone()),
        None => None,
    }
}

/// Whether two pending texts are equal.
fn same_text(left: &Option<String>, right: &Option<String>) -> (same: bool)
    ensures
        same == (text_of(*left) == text_of(*right)),
{
    match (left, right) {
        (Some(left), Some(right)) => *left == *right,
        (None, None) => true,
        _ => false,
    }
}

/// The whole seconds of the time that the run editor sets for a pending
/// text: none for text that asks for no edit, that the run editor does not
/// take, or that is blank.
fn seconds_read(pending: &Option<String>) -> (seconds: Option<u64>)
    ensures
        match seconds {
            Some(count) => carries_text(text_of(*pending)) && time_read(text_of(*pending)->0)
                == Some(count as int) && count <= SECONDS_LIMIT,
            None => !(carries_text(text_of(*pending)) && time_read(text_of(*pending)->0)
                is Some),
        },
{
    match pending {
        Some(text) => {
            if text.as_str().is_empty() {
                None
            } else {
                match parse_time(text.as_str()) {
                    Ok(Some((seconds, nanoseconds))) => {
                        if seconds > 0 || (seconds == 0 && nanoseconds >= 0) {
                            Some(seconds as u64)
                        } else {
                            None
                        }
                    },
                    _ => None,
                }
            }
        },
        None => None,
    }
}

/// Whether a pending text asks for an edit.
fn has_text(pending: &Option<String>) -> (has: bool)
    ensures
        has == carries_text(text_of(*pending)),
{
    match pending {
        Some(text) => !text.as_str().is_empty(),
        None => false,
    }
}

} // verus!

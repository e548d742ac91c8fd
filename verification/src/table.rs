//! The table: a run editor together with the snapshot that was last
//! published of it.

use std::rc::Rc;
use vstd::prelude::*;
use livesplit_core::RunEditor;
use crate::command::{lemma_ran_add, lemma_ran_none, lemma_ran_push, ran, Command};
use crate::engine::{
    editor_rows, largest_seconds, render, selection_order, split_seconds, split_time_seconds,
    table_of,
};
use crate::intent::{IntentModel, RowIntent};
use crate::model::TableModel;
use crate::reach::{largest_of, SECONDS_LIMIT};
use crate::reconcile::{
    aligned, any_added_time, any_work, intent_views, lemma_all_rows, lemma_next_row,
    lemma_pass_reaches_take, lemma_pass_take_next, lemma_reach_monotone,
    lemma_reach_without_added_time, lemma_work_next, pass_applied, pass_bound, pass_commands,
    pass_reaches, pass_trace, rows_applied,
};
use crate::selection::{order_in_bounds, state_in, SelectionState};
use crate::snapshot::{active_at, next_version, one_active, share, views, Snapshot};

verus! {

/// A snapshot of a table with a sound selection shows exactly one active
/// row: the row that was selected last.
pub proof fn lemma_shown_one_active(table: TableModel)
    requires
        order_in_bounds(table.order, table.rows.len()),
        table.rows.len() <= usize::MAX,
    ensures
        active_at(table.shown(), table.order.last() as int),
        one_active(table.shown()),
{
    let shown = table.shown();
    let active = table.order.last() as int;
    assert(table.order[table.order.len() - 1] < table.rows.len());
    assert forall|j: int| 0 <= j < shown.len() implies ((#[trigger] shown[j]).selection
        == SelectionState::Active <==> j == active) by {
        assert(j as usize == j);
    }
    assert(active_at(shown, active));
}

/// The state of the segment table of a run editor window: the run editor and
/// the snapshot that rows and renderers read until the next pass.
pub struct State {
    state: Rc<Snapshot>,
    editor: RunEditor,
    closed_with_ok: bool,
}

impl State {
    /// The table that the run editor holds.
    pub closed spec fn table(&self) -> TableModel {
        table_of(self.editor)
    }

    /// The run editor.
    pub closed spec fn editor_of(&self) -> RunEditor {
        self.editor
    }

    /// The snapshot that is published.
    pub closed spec fn shown(&self) -> Snapshot {
        *self.state
    }

    /// Whether the window was closed with its OK button.
    pub closed spec fn confirmed(&self) -> bool {
        self.closed_with_ok
    }

    /// The published snapshot is up to date: it shows the table that the run
    /// editor holds, and the selection of that table is sound.
    pub open spec fn wf(&self) -> bool {
        &&& self.table() == table_of(self.editor_of())
        &&& order_in_bounds(self.table().order, self.table().rows.len())
        &&& split_seconds(self.editor_of()).len() == self.table().rows.len()
        &&& self.shown()@ == self.table().shown()
    }

    /// What a pass over `asked` makes of the table `before`, with `changed`
    /// for its result.
    ///
    /// The run editor was handed exactly the commands of the pass, in order,
    /// and after them one request for its state if, and only if, there was
    /// any command. The snapshot is up to date again. It has the next version
    /// if anything was asked, and is the same snapshot if nothing was.
    pub open spec fn reconciled(
        before: State,
        asked: Seq<IntentModel>,
        changed: bool,
        after: State,
    ) -> bool {
        &&& after.wf()
        &&& after.confirmed() == before.confirmed()
        &&& changed == any_work(asked)
        &&& ran(before.editor_of(), pass_trace(asked), after.editor_of())
        &&& pass_applied(before.table(), asked, after.table())
        &&& largest_seconds(after.editor_of()) <= pass_bound(
            largest_seconds(before.editor_of()),
            asked,
        )
        &&& changed ==> after.shown().version_of() == next_version(before.shown().version_of())
        &&& !changed ==> after.shown() == before.shown() && after.editor_of()
            == before.editor_of()
    }

    /// The intents of a pass are emptied by it, and hold the snapshots they
    /// held.
    pub open spec fn emptied(before: Seq<RowIntent>, after: Seq<RowIntent>) -> bool {
        &&& after.len() == before.len()
        &&& forall|k: int|
            0 <= k < before.len() ==> (#[trigger] after[k])@ == IntentModel::blank(k as usize)
                && after[k].shown() == before[k].shown()
    }

    /// The pass over `asked` stays within reach: whenever it hands the run
    /// editor a segment time to set, that time and the largest split time of
    /// the table are together below the limit of the run editor's times.
    pub open spec fn reaches(&self, asked: Seq<IntentModel>) -> bool {
        pass_reaches(largest_seconds(self.editor_of()), asked)
    }

    /// What the published snapshot shows in a row: the text that the run
    /// editor has for the row, and the state that its selection gives the row.
    pub proof fn lemma_snapshot_row(&self, row: int)
        requires
            self.wf(),
            0 <= row < self.table().rows.len(),
        ensures
            self.shown()@.len() == self.table().rows.len(),
            self.shown()@[row].text == self.table().rows[row],
            self.shown()@[row].selection == state_in(self.table().order, row as usize),
    {
        assert(self.table().shown()[row].text == self.table().rows[row]);
    }

    /// Takes over a run editor and publishes the first snapshot of its table,
    /// under version 0.
    pub fn new(editor: RunEditor) -> (state: State)
        ensures
            state.wf(),
            state.table() == table_of(editor),
            state.shown().version_of() == 0,
            !state.confirmed(),
    {
        State::with_version(editor, 0)
    }

    /// Takes over a run editor and publishes a snapshot of its table under
    /// the given version. This is for a run editor that was taken out of a
    /// table with [`State::close`] and comes back changed: given the version
    /// after the one it left with, its snapshots keep telling apart.
    pub fn with_version(editor: RunEditor, version: u64) -> (state: State)
        ensures
            state.wf(),
            state.table() == table_of(editor),
            state.shown().version_of() == version,
            !state.confirmed(),
    {
        let mut editor = editor;
        let segments = render(&mut editor);
        proof {
            assert(views(segments@).len() == segments.len());
            assert(table_of(editor).shown().len() == table_of(editor).rows.len());
            lemma_shown_one_active(table_of(editor));
        }
        State { state: Rc::new(Snapshot::publish(version, segments)), editor, closed_with_ok: false }
    }

    /// Whether the window was closed with its OK button.
    #[verifier::when_used_as_spec(confirmed)]
    pub fn closed_with_ok(&self) -> (ok: bool)
        ensures
            ok == self.confirmed(),
    {
        self.closed_with_ok
    }

    /// Notes whether the window was closed with its OK button. The table is
    /// not touched.
    pub fn set_closed_with_ok(&mut self, ok: bool)
        ensures
            final(self).confirmed() == ok,
            final(self).editor_of() == old(self).editor_of(),
            final(self).table() == old(self).table(),
            final(self).shown() == old(self).shown(),
    {
        self.closed_with_ok = ok;
    }

    /// Gives the run editor back, for the run to be taken out of it.
    pub fn close(self) -> (editor: RunEditor)
        ensures
            editor == self.editor_of(),
    {
        self.editor
    }

    /// The number of rows.
    pub fn data_len(&self) -> (len: usize)
        ensures
            len == self.shown()@.len(),
    {
        self.state.len()
    }

    /// The snapshot that is published. All who ask between two passes share
    /// one snapshot.
    pub fn snapshot(&self) -> (snapshot: Rc<Snapshot>)
        ensures
            *snapshot == self.shown(),
    {
        share(&self.state)
    }

    /// One intent for each row, in order, each asking for nothing and each
    /// holding the published snapshot.
    pub fn rows(&self) -> (intents: Vec<RowIntent>)
        ensures
            aligned(intent_views(intents@), self.shown()@.len()),
            !any_work(intent_views(intents@)),
            forall|k: int|
                0 <= k < intents@.len() ==> (#[trigger] intents@[k])@ == IntentModel::blank(
                    k as usize,
                ) && intents@[k].shown() == self.shown(),
    {
        let len = self.state.len();
        let mut intents: Vec<RowIntent> = Vec::new();
        let mut row: usize = 0;
        while row < len
            invariant
                row <= len,
                len == self.shown()@.len(),
                intents@.len() == row,
                forall|k: int|
                    0 <= k < row ==> (#[trigger] intents@[k])@ == IntentModel::blank(k as usize)
                        && intents@[k].shown() == self.shown(),
            decreases len - row,
        {
            intents.push(RowIntent::new(share(&self.state), row));
            row = row + 1;
        }
        intents
    }

    /// The whole seconds of the largest split time of the table.
    pub fn largest_seconds(&self) -> (largest: i64)
        requires
            self.wf(),
        ensures
            largest == largest_seconds(self.editor_of()),
            largest >= 0,
    {
        let len = self.state.len();
        let mut largest: i64 = 0;
        let mut row: usize = 0;
        proof {
            assert(split_seconds(self.editor).take(0) =~= Seq::empty());
        }
        while row < len
            invariant
                row <= len,
                len == editor_rows(self.editor).len(),
                len == split_seconds(self.editor).len(),
                largest == largest_of(split_seconds(self.editor).take(row as int)),
                largest >= 0,
            decreases len - row,
        {
            let seconds = split_time_seconds(&self.editor, row);
            proof {
                let sooner = split_seconds(self.editor).take(row as int);
                let later = split_seconds(self.editor).take(row + 1);
                assert(later.drop_last() =~= sooner);
                assert(later.last() == split_seconds(self.editor)[row as int]);
            }
            match seconds {
                Some(count) => {
                    if count > largest {
                        largest = count;
                    }
                },
                None => {},
            }
            row = row + 1;
        }
        proof {
            assert(split_seconds(self.editor).take(len as int) =~= split_seconds(self.editor));
        }
        largest
    }

    /// Whether a pass over `intents` stays within reach of the run editor's
    /// times. The times of the pass are parsed for this, and nothing is
    /// handed to the run editor.
    pub fn can_reconcile(&self, intents: &Vec<RowIntent>) -> (within: bool)
        requires
            self.wf(),
        ensures
            within == self.reaches(intent_views(intents@)),
    {
        let ghost asked = intent_views(intents@);
        let ghost largest = largest_seconds(self.editor);
        let len = intents.len();
        let mut bound: u64 = self.largest_seconds() as u64;
        let mut row: usize = 0;
        proof {
            assert(asked.take(0) =~= Seq::empty());
        }
        while row < len
            invariant
                row <= len,
                len == intents@.len(),
                asked == intent_views(intents@),
                largest == largest_seconds(self.editor),
                bound <= SECONDS_LIMIT,
                bound == pass_bound(largest, asked.take(row as int)),
                pass_reaches(largest, asked.take(row as int)),
            decreases len - row,
        {
            proof {
                lemma_pass_take_next(largest, asked, row as int);
                assert(asked[row as int] == intents@[row as int]@);
            }
            match intents[row].reach(bound) {
                Some(after) => {
                    bound = after;
                },
                None => {
                    proof {
                        if pass_reaches(largest, asked) {
                            lemma_pass_reaches_take(largest, asked, row + 1);
                        }
                    }
                    return false;
                },
            }
            row = row + 1;
        }
        proof {
            assert(asked.take(len as int) =~= asked);
        }
        true
    }

    /// One reconciliation pass, if it stays within reach of the run editor's
    /// times, and nothing at all if it does not. The result is `None` when
    /// the pass was not made, which takes text for a segment time that sets a
    /// time: no other pass is ever out of reach.
    pub fn try_reconcile(&mut self, intents: &mut Vec<RowIntent>) -> (changed: Option<bool>)
        requires
            old(self).wf(),
            aligned(intent_views(old(intents)@), old(self).shown()@.len()),
        ensures
            match changed {
                Some(changed) => {
                    &&& old(self).reaches(intent_views(old(intents)@))
                    &&& State::reconciled(
                        *old(self),
                        intent_views(old(intents)@),
                        changed,
                        *final(self),
                    )
                    &&& State::emptied(old(intents)@, final(intents)@)
                },
                None => {
                    &&& !old(self).reaches(intent_views(old(intents)@))
                    &&& any_added_time(intent_views(old(intents)@))
                    &&& *final(self) == *old(self)
                    &&& *final(intents) == *old(intents)
                },
            },
    {
        if self.can_reconcile(intents) {
            Some(self.reconcile(intents))
        } else {
            proof {
                if !any_added_time(intent_views(intents@)) {
                    lemma_reach_without_added_time(
                        largest_seconds(self.editor),
                        intent_views(intents@),
                    );
                }
            }
            None
        }
    }

    /// One reconciliation pass.
    ///
    /// The intents are applied to the run editor in ascending order of their
    /// rows, and each is emptied on the way. If any of them asked anything of
    /// the run editor, one new snapshot is taken when all rows are done, and
    /// published under the next version. If none did, neither the run editor
    /// nor the published snapshot is touched.
    ///
    /// The run editor aborts when its times overflow, so the pass must stay
    /// within reach. [`State::try_reconcile`] makes that test itself.
    pub fn reconcile(&mut self, intents: &mut Vec<RowIntent>) -> (changed: bool)
        requires
            old(self).wf(),
            aligned(intent_views(old(intents)@), old(self).shown()@.len()),
            old(self).reaches(intent_views(old(intents)@)),
        ensures
            State::reconciled(*old(self), intent_views(old(intents)@), changed, *final(self)),
            State::emptied(old(intents)@, final(intents)@),
    {
        let ghost first = self.editor;
        let ghost before = table_of(self.editor);
        let ghost asked = intent_views(intents@);
        let len = intents.len();
        let mut changed = false;
        let mut row: usize = 0;
        proof {
            assert(asked.take(0) =~= Seq::empty());
            lemma_ran_none(first, first);
        }
        while row < len
            invariant
                row <= len,
                len == intents@.len(),
                len == old(intents)@.len(),
                asked == intent_views(old(intents)@),
                aligned(asked, before.rows.len()),
                before == old(self).table(),
                first == old(self).editor,
                self.state == old(self).state,
                self.closed_with_ok == old(self).closed_with_ok,
                rows_applied(before, asked, row as int, table_of(self.editor)),
                ran(first, pass_commands(asked.take(row as int)), self.editor),
                pass_reaches(largest_seconds(first), asked),
                largest_seconds(self.editor) <= pass_bound(
                    largest_seconds(first),
                    asked.take(row as int),
                ),
                selection_order(self.editor).len() > 0,
                changed == any_work(asked.take(row as int)),
                !changed ==> self.editor == old(self).editor,
                forall|k: int| row <= k < len ==> (#[trigger] intents@[k])@ == asked[k],
                forall|k: int|
                    0 <= k < row ==> (#[trigger] intents@[k])@ == IntentModel::blank(k as usize),
                forall|k: int|
                    0 <= k < len ==> (#[trigger] intents@[k]).shown() == old(intents)@[k].shown(),
            decreases len - row,
        {
            let ghost middle = self.editor;
            proof {
                lemma_pass_take_next(largest_seconds(first), asked, row as int);
                lemma_pass_reaches_take(largest_seconds(first), asked, row + 1);
                lemma_reach_monotone(
                    asked[row as int],
                    largest_seconds(middle),
                    pass_bound(largest_seconds(first), asked.take(row as int)),
                );
            }
            let applied = intents[row].apply(&mut self.editor);
            proof {
                lemma_next_row(before, asked, row as int, table_of(middle), table_of(self.editor));
                lemma_work_next(asked, row as int);
                lemma_ran_add(
                    first,
                    pass_commands(asked.take(row as int)),
                    middle,
                    asked[row as int].commands(),
                    self.editor,
                );
            }
            changed = changed || applied;
            row = row + 1;
        }
        proof {
            assert(asked.take(len as int) =~= asked);
            lemma_all_rows(before, asked, table_of(self.editor));
        }
        if changed {
            let ghost last = self.editor;
            let segments = render(&mut self.editor);
            let version = self.state.following_version();
            proof {
                assert(views(segments@).len() == segments.len());
                assert(table_of(self.editor).shown().len() == table_of(self.editor).rows.len());
                lemma_shown_one_active(table_of(self.editor));
                lemma_ran_push(first, pass_commands(asked), last, Command::TakeState, self.editor);
            }
            self.state = Rc::new(Snapshot::publish(version, segments));
        }
        changed
    }
}

} // verus!
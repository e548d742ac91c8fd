//! What a reconciliation pass makes of the table.

use vstd::prelude::*;
use livesplit_core::RunEditor;
use crate::command::{course, performed, ran, step_at, Command};
use crate::engine::{
    best_segment_time_set, editor_rows, segment_time_set, selected_only, split_time_set,
    time_accepted,
};
use crate::intent::{carries_text, gesture_commands, row_applied, IntentModel, RowIntent};
use crate::model::{times_kept, times_of, TableModel};
use crate::selection::{
    lemma_gestured_in_bounds, lemma_without_last_one, order_in_bounds, state_in, SelectionGesture,
    SelectionOrder, SelectionState,
};

verus! {

/// The content of each intent of a pass.
pub open spec fn intent_views(intents: Seq<RowIntent>) -> Seq<IntentModel> {
    Seq::new(intents.len(), |k: int| intents[k]@)
}

/// There is one intent for each of `len` rows, and the intent at place `k` is
/// the one for row `k`.
pub open spec fn aligned(intents: Seq<IntentModel>, len: nat) -> bool {
    &&& intents.len() == len
    &&& forall|k: int| 0 <= k < len ==> (#[trigger] intents[k]).index == k
}

/// Whether some intent asks anything of the run editor.
pub open spec fn any_work(intents: Seq<IntentModel>) -> bool {
    exists|k: int| 0 <= k < intents.len() && (#[trigger] intents[k]).has_work()
}

/// Whether some intent holds text that the run editor takes for a time.
pub open spec fn any_accepted_time(intents: Seq<IntentModel>) -> bool {
    exists|k: int| 0 <= k < intents.len() && (#[trigger] intents[k]).has_accepted_time()
}

/// The commands of a pass: those of each intent, in ascending order of the
/// rows.
pub open spec fn pass_commands(intents: Seq<IntentModel>) -> Seq<Command>
    decreases intents.len(),
{
    if intents.len() == 0 {
        Seq::empty()
    } else {
        pass_commands(intents.drop_last()) + intents.last().commands()
    }
}

/// What bounds the split times of the table once the intents are applied in
/// order, if `bound` bounds them before.
pub open spec fn pass_bound(bound: int, intents: Seq<IntentModel>) -> int
    decreases intents.len(),
{
    if intents.len() == 0 {
        bound
    } else {
        intents.last().bound_after(pass_bound(bound, intents.drop_last()))
    }
}

/// Whether the run editor can carry out the pass on a table whose split
/// times `bound` bounds: each intent is within reach of what bounds the
/// split times when its turn comes.
pub open spec fn pass_reaches(bound: int, intents: Seq<IntentModel>) -> bool
    decreases intents.len(),
{
    if intents.len() == 0 {
        true
    } else {
        pass_reaches(bound, intents.drop_last()) && intents.last().reaches(
            pass_bound(bound, intents.drop_last()),
        )
    }
}

/// Whether some intent holds text for a segment time that sets a time.
pub open spec fn any_added_time(intents: Seq<IntentModel>) -> bool {
    exists|k: int| 0 <= k < intents.len() && (#[trigger] intents[k]).adds_time()
}

/// Everything that a pass asks of the run editor, in order: the commands of
/// its intents, and after them, if there was any, one report of the state.
pub open spec fn pass_trace(intents: Seq<IntentModel>) -> Seq<Command> {
    if any_work(intents) {
        pass_commands(intents).push(Command::TakeState)
    } else {
        pass_commands(intents)
    }
}

/// One more row: its commands come after those of the rows before, and it
/// must be within reach of the bound that they leave.
pub proof fn lemma_pass_take_next(bound: int, intents: Seq<IntentModel>, done: int)
    requires
        0 <= done < intents.len(),
    ensures
        pass_commands(intents.take(done + 1)) == pass_commands(intents.take(done))
            + intents[done].commands(),
        pass_bound(bound, intents.take(done + 1)) == intents[done].bound_after(
            pass_bound(bound, intents.take(done)),
        ),
        pass_reaches(bound, intents.take(done + 1)) == (pass_reaches(bound, intents.take(done))
            && intents[done].reaches(pass_bound(bound, intents.take(done)))),
{
    assert(intents.take(done + 1).drop_last() =~= intents.take(done));
    assert(intents.take(done + 1).last() == intents[done]);
}

/// A pass that is within reach is so up to each of its rows.
pub proof fn lemma_pass_reaches_take(bound: int, intents: Seq<IntentModel>, done: int)
    requires
        0 <= done <= intents.len(),
        pass_reaches(bound, intents),
    ensures
        pass_reaches(bound, intents.take(done)),
    decreases intents.len() - done,
{
    if done < intents.len() {
        lemma_pass_reaches_take(bound, intents, done + 1);
        lemma_pass_take_next(bound, intents, done);
    } else {
        assert(intents.take(done) =~= intents);
    }
}

/// A smaller bound leaves a smaller bound, and what is within reach of a
/// bound is within reach of every smaller one.
pub proof fn lemma_reach_monotone(intent: IntentModel, low: int, high: int)
    requires
        low <= high,
    ensures
        intent.bound_after(low) <= intent.bound_after(high),
        intent.reaches(high) ==> intent.reaches(low),
{
}

/// A pass without text for a segment time that sets a time is within reach,
/// whatever the table holds: nothing else makes the run editor add times.
pub proof fn lemma_reach_without_added_time(bound: int, intents: Seq<IntentModel>)
    requires
        !any_added_time(intents),
    ensures
        pass_reaches(bound, intents),
    decreases intents.len(),
{
    if intents.len() > 0 {
        let sooner = intents.drop_last();
        assert(!intents[intents.len() - 1].adds_time());
        assert(!any_added_time(sooner)) by {
            if any_added_time(sooner) {
                let k = choose|k: int| 0 <= k < sooner.len() && (#[trigger] sooner[k]).adds_time();
                assert(intents[k] == sooner[k]);
            }
        }
        lemma_reach_without_added_time(bound, sooner);
    }
}

/// No command of the rows of a pass asks for the state of the table.
pub proof fn lemma_no_state_among_rows(intents: Seq<IntentModel>, at: int)
    requires
        0 <= at < pass_commands(intents).len(),
    ensures
        pass_commands(intents)[at] != Command::TakeState,
    decreases intents.len(),
{
    if intents.len() > 0 {
        let sooner = pass_commands(intents.drop_last());
        if at < sooner.len() {
            lemma_no_state_among_rows(intents.drop_last(), at);
        } else {
            let intent = intents.last();
            let own = intent.commands();
            let place = at - sooner.len();
            assert(pass_commands(intents)[at] == own[place]);
            let name = intent.name_commands();
            let split = intent.split_commands();
            let segment = intent.segment_commands();
            let best = intent.best_commands();
            let gesture = intent.gesture_commands();
            if place < name.len() {
                assert(own[place] == name[place]);
            } else if place < name.len() + split.len() {
                assert(own[place] == split[place - name.len()]);
            } else if place < name.len() + split.len() + segment.len() {
                assert(own[place] == segment[place - name.len() - split.len()]);
            } else if place < name.len() + split.len() + segment.len() + best.len() {
                assert(own[place] == best[place - name.len() - split.len() - segment.len()]);
            } else {
                assert(own[place] == gesture[place - name.len() - split.len() - segment.len()
                    - best.len()]);
            }
        }
    }
}

/// A pass asks for the state of the table exactly once if any intent asks
/// for work, and then as the last thing it asks of the run editor. A pass
/// without work never asks for it.
pub proof fn lemma_state_taken_once(intents: Seq<IntentModel>, at: int)
    requires
        0 <= at < pass_trace(intents).len(),
    ensures
        pass_trace(intents)[at] == Command::TakeState <==> any_work(intents) && at
            == pass_trace(intents).len() - 1,
{
    if at < pass_commands(intents).len() {
        lemma_no_state_among_rows(intents, at);
    }
}

/// The selection after the intents were applied one after the other, the
/// first one first, to a table whose selection was `order`.
pub open spec fn order_after_pass(order: SelectionOrder, intents: Seq<IntentModel>) -> SelectionOrder
    decreases intents.len(),
{
    if intents.len() == 0 {
        order
    } else {
        intents.last().order_after(order_after_pass(order, intents.drop_last()))
    }
}

/// `after` is what applying the first `done` of `intents` can make of the
/// table `before`.
pub open spec fn rows_applied(
    before: TableModel,
    intents: Seq<IntentModel>,
    done: int,
    after: TableModel,
) -> bool {
    &&& after.order == order_after_pass(before.order, intents.take(done))
    &&& after.rows.len() == before.rows.len()
    &&& forall|j: int|
        0 <= j < before.rows.len() ==> (#[trigger] after.rows[j]).name == if j < done {
            intents[j].name_after(before.rows[j].name)
        } else {
            before.rows[j].name
        }
    &&& !any_accepted_time(intents.take(done)) ==> times_kept(before.rows, after.rows)
}

/// What a pass over `intents` comes to for the table `before`, in sum.
///
/// The selection is the one that the intents produce in ascending order of
/// their rows. Each row has the name that its intent gives it. The time cells
/// are as they were unless some intent holds text that the run editor takes
/// for a time. What they read in that case follows from the commands that
/// were carried out, see [`pass_trace`].
pub open spec fn pass_applied(before: TableModel, intents: Seq<IntentModel>, after: TableModel) -> bool {
    &&& after.order == order_after_pass(before.order, intents)
    &&& after.rows.len() == before.rows.len()
    &&& forall|j: int|
        0 <= j < before.rows.len() ==> (#[trigger] after.rows[j]).name == intents[j].name_after(
            before.rows[j].name,
        )
    &&& !any_accepted_time(intents) ==> times_kept(before.rows, after.rows)
}

/// When all rows are done, the pass is done.
pub proof fn lemma_all_rows(before: TableModel, intents: Seq<IntentModel>, after: TableModel)
    requires
        intents.len() == before.rows.len(),
        rows_applied(before, intents, intents.len() as int, after),
    ensures
        pass_applied(before, intents, after),
{
    assert(intents.take(intents.len() as int) =~= intents);
}

/// Some of the first `done + 1` intents asks for work exactly if some of the
/// first `done` does or the next one does.
pub proof fn lemma_work_next(intents: Seq<IntentModel>, done: int)
    requires
        0 <= done < intents.len(),
    ensures
        any_work(intents.take(done + 1)) == (any_work(intents.take(done))
            || intents[done].has_work()),
{
    let sooner = intents.take(done);
    let later = intents.take(done + 1);
    if any_work(sooner) {
        let k = choose|k: int| 0 <= k < sooner.len() && (#[trigger] sooner[k]).has_work();
        assert(later[k] == sooner[k]);
    }
    if intents[done].has_work() {
        assert(later[done] == intents[done]);
    }
    if any_work(later) {
        let k = choose|k: int| 0 <= k < later.len() && (#[trigger] later[k]).has_work();
        if k < done {
            assert(sooner[k] == later[k]);
        }
    }
}

/// One more row: if `middle` is what the first `done` intents made of
/// `before`, and `after` is what the next intent made of `middle`, then
/// `after` is what the first `done + 1` intents made of `before`.
pub proof fn lemma_next_row(
    before: TableModel,
    intents: Seq<IntentModel>,
    done: int,
    middle: TableModel,
    after: TableModel,
)
    requires
        0 <= done < intents.len(),
        intents[done].index == done,
        rows_applied(before, intents, done, middle),
        row_applied(middle, intents[done], after),
    ensures
        rows_applied(before, intents, done + 1, after),
{
    let sooner = intents.take(done);
    let later = intents.take(done + 1);
    assert(later.drop_last() =~= sooner);
    assert(later.last() == intents[done]);
    assert forall|j: int| 0 <= j < before.rows.len() implies (#[trigger] after.rows[j]).name == if j
        < done + 1 {
        intents[j].name_after(before.rows[j].name)
    } else {
        before.rows[j].name
    } by {
        assert(middle.rows[j].name == if j < done {
            intents[j].name_after(before.rows[j].name)
        } else {
            before.rows[j].name
        });
    }
    if !any_accepted_time(later) {
        assert(!intents[done].has_accepted_time()) by {
            assert(later[done] == intents[done]);
        }
        assert(!any_accepted_time(sooner)) by {
            if any_accepted_time(sooner) {
                let k = choose|k: int|
                    0 <= k < sooner.len() && (#[trigger] sooner[k]).has_accepted_time();
                assert(later[k] == sooner[k]);
            }
        }
    }
}

/// A pass in which no intent asks for work leaves the selection as it is.
pub proof fn lemma_idle_pass(order: SelectionOrder, intents: Seq<IntentModel>)
    requires
        !any_work(intents),
    ensures
        order_after_pass(order, intents) == order,
    decreases intents.len(),
{
    if intents.len() > 0 {
        let sooner = intents.drop_last();
        assert(!intents[intents.len() - 1].has_work());
        assert(!any_work(sooner)) by {
            if any_work(sooner) {
                let k = choose|k: int| 0 <= k < sooner.len() && (#[trigger] sooner[k]).has_work();
                assert(intents[k] == sooner[k]);
            }
        }
        lemma_idle_pass(order, sooner);
    }
}

/// The last word: the last row of a pass that asks for work is the active row
/// after the pass, whatever was selected before and whatever the rows above
/// it asked for. The one exception is a row that asks for nothing but to be
/// unselected.
pub proof fn lemma_last_word(order: SelectionOrder, intents: Seq<IntentModel>, row: int)
    requires
        aligned(intents, intents.len()),
        0 <= row < intents.len(),
        intents[row].ends_active(),
        forall|k: int| row < k < intents.len() ==> !(#[trigger] intents[k]).has_work(),
    ensures
        order_after_pass(order, intents).len() > 0,
        order_after_pass(order, intents).last() == row,
        state_in(order_after_pass(order, intents), row as usize) == SelectionState::Active,
    decreases intents.len(),
{
    let sooner = intents.drop_last();
    if row < intents.len() - 1 {
        assert(!intents[intents.len() - 1].has_work());
        assert(aligned(sooner, sooner.len())) by {
            assert forall|k: int| 0 <= k < sooner.len() implies (#[trigger] sooner[k]).index
                == k by {
                assert(sooner[k] == intents[k]);
            }
        }
        assert(sooner[row] == intents[row]);
        assert forall|k: int| row < k < sooner.len() implies !(#[trigger] sooner[k]).has_work() by {
            assert(sooner[k] == intents[k]);
        }
        lemma_last_word(order, sooner, row);
    } else {
        let intent = intents[row];
        assert(intent.index == row);
        if intent.selection_gesture == Some(SelectionGesture::Unselect) {
            lemma_without_last_one(crate::selection::only(intent.index), intent.index);
        }
    }
}

/// A sound selection is sound after a pass.
pub proof fn lemma_pass_in_bounds(order: SelectionOrder, intents: Seq<IntentModel>, len: nat)
    requires
        order_in_bounds(order, len),
        intents.len() <= len,
        forall|k: int| 0 <= k < intents.len() ==> (#[trigger] intents[k]).index == k,
    ensures
        order_in_bounds(order_after_pass(order, intents), len),
    decreases intents.len(),
{
    if intents.len() > 0 {
        let sooner = intents.drop_last();
        let intent = intents.last();
        assert forall|k: int| 0 <= k < sooner.len() implies (#[trigger] sooner[k]).index == k by {
            assert(sooner[k] == intents[k]);
        }
        lemma_pass_in_bounds(order, sooner, len);
        let below = order_after_pass(order, sooner);
        let edited = if intent.has_edit() {
            crate::selection::only(intent.index)
        } else {
            below
        };
        assert(intent.index == intents.len() - 1);
        assert(order_in_bounds(edited, len));
        match intent.selection_gesture {
            Some(gesture) => {
                lemma_gestured_in_bounds(edited, gesture, intent.index, len);
            },
            None => {},
        }
    }
}

/// An edit lands on its row: after a pass, a row whose intent held text for
/// its name has that name, whichever row was active when the pass began and
/// whatever the other intents asked for.
pub proof fn lemma_name_lands(
    before: TableModel,
    intents: Seq<IntentModel>,
    after: TableModel,
    row: int,
)
    requires
        pass_applied(before, intents, after),
        aligned(intents, before.rows.len()),
        0 <= row < intents.len(),
        carries_text(intents[row].pending_name),
    ensures
        after.rows[row].name == intents[row].pending_name->0,
        after.shown()[row].text.name == intents[row].pending_name->0,
{
}

/// A row without an edit for its name keeps its name through a pass.
pub proof fn lemma_name_stays(
    before: TableModel,
    intents: Seq<IntentModel>,
    after: TableModel,
    row: int,
)
    requires
        pass_applied(before, intents, after),
        aligned(intents, before.rows.len()),
        0 <= row < intents.len(),
        !carries_text(intents[row].pending_name),
    ensures
        after.rows[row].name == before.rows[row].name,
{
}

/// A pass in which no intent asks for work hands no command to the run
/// editor.
pub proof fn lemma_idle_commands(intents: Seq<IntentModel>)
    requires
        !any_work(intents),
    ensures
        pass_commands(intents) == Seq::<Command>::empty(),
        pass_trace(intents) == Seq::<Command>::empty(),
    decreases intents.len(),
{
    if intents.len() > 0 {
        let sooner = intents.drop_last();
        assert(!intents[intents.len() - 1].has_work());
        assert(!any_work(sooner)) by {
            if any_work(sooner) {
                let k = choose|k: int| 0 <= k < sooner.len() && (#[trigger] sooner[k]).has_work();
                assert(intents[k] == sooner[k]);
            }
        }
        lemma_idle_commands(sooner);
        assert(pass_commands(intents) =~= Seq::<Command>::empty());
    }
}

/// A pass in which one intent alone asks for work hands the commands of that
/// intent to the run editor, and then asks for the state.
pub proof fn lemma_lone_commands(intents: Seq<IntentModel>, row: int)
    requires
        0 <= row < intents.len(),
        intents[row].has_work(),
        forall|k: int| 0 <= k < intents.len() && k != row ==> !(#[trigger] intents[k]).has_work(),
    ensures
        pass_commands(intents) == intents[row].commands(),
        pass_trace(intents) == intents[row].commands().push(Command::TakeState),
    decreases intents.len(),
{
    let sooner = intents.drop_last();
    if row < intents.len() - 1 {
        assert(!intents[intents.len() - 1].has_work());
        assert(sooner[row] == intents[row]);
        assert forall|k: int| 0 <= k < sooner.len() && k != row implies !(
        #[trigger] sooner[k]).has_work() by {
            assert(sooner[k] == intents[k]);
        }
        lemma_lone_commands(sooner, row);
        assert(pass_commands(intents) =~= intents[row].commands());
    } else {
        assert(!any_work(sooner)) by {
            if any_work(sooner) {
                let k = choose|k: int| 0 <= k < sooner.len() && (#[trigger] sooner[k]).has_work();
                assert(intents[k] == sooner[k]);
            }
        }
        lemma_idle_commands(sooner);
        assert(pass_commands(intents) =~= intents[row].commands());
    }
}

/// The course of a pass that edits one cell of one row: the row is selected
/// alone, the edit is made in the state that this leaves, and what the table
/// reads afterwards is what the edit left behind. The gesture of the row, if
/// it has one, and the request for the state come after the edit and change
/// no cell.
pub proof fn lemma_lone_edit(
    before: RunEditor,
    row: usize,
    edit: Command,
    gesture: Option<SelectionGesture>,
    after: RunEditor,
) -> (states: (RunEditor, RunEditor))
    requires
        ran(
            before,
            (seq![Command::SelectOnly(row), edit] + gesture_commands(row, gesture)).push(
                Command::TakeState,
            ),
            after,
        ),
    ensures
        selected_only(before, row, states.0),
        performed(states.0, edit, states.1),
        editor_rows(after) == editor_rows(states.1),
{
    let commands = (seq![Command::SelectOnly(row), edit] + gesture_commands(row, gesture)).push(
        Command::TakeState,
    );
    let taken = choose|taken: Seq<RunEditor>| #[trigger] course(before, commands, taken, after);
    assert(step_at(commands, taken, 0));
    assert(step_at(commands, taken, 1));
    assert(step_at(commands, taken, 2));
    if gesture is Some {
        assert(step_at(commands, taken, 3));
    }
    (taken[1], taken[2])
}

/// An edit of the split time lands on its row: when the one thing that a
/// pass asks is to edit the split time of a row, and the run editor takes the
/// text, the table reads afterwards what the run editor makes of that text
/// on that row, whichever row was active when the pass began. The same holds
/// when the row carries a gesture besides.
pub proof fn lemma_split_time_lands(
    before: RunEditor,
    intents: Seq<IntentModel>,
    after: RunEditor,
    row: int,
)
    requires
        ran(before, pass_trace(intents), after),
        aligned(intents, intents.len()),
        0 <= row < intents.len(),
        forall|k: int| 0 <= k < intents.len() && k != row ==> !(#[trigger] intents[k]).has_work(),
        carries_text(intents[row].pending_split),
        time_accepted(intents[row].pending_split->0),
        !carries_text(intents[row].pending_name),
        !carries_text(intents[row].pending_segment_time),
        !carries_text(intents[row].pending_best_segment_time),
    ensures
        times_of(editor_rows(after)) == split_time_set(
            before,
            row as usize,
            intents[row].pending_split->0,
        ),
{
    let intent = intents[row];
    let text = intent.pending_split->0;
    lemma_lone_commands(intents, row);
    assert(intent.commands() =~= seq![
        Command::SelectOnly(intent.index),
        Command::SetSplitTime(text),
    ] + gesture_commands(intent.index, intent.selection_gesture));
    let states = lemma_lone_edit(
        before,
        intent.index,
        Command::SetSplitTime(text),
        intent.selection_gesture,
        after,
    );
    assert(crate::selection::only(intent.index).last() == intent.index);
}

/// An edit of the segment time lands on its row, as an edit of the split
/// time does.
pub proof fn lemma_segment_time_lands(
    before: RunEditor,
    intents: Seq<IntentModel>,
    after: RunEditor,
    row: int,
)
    requires
        ran(before, pass_trace(intents), after),
        aligned(intents, intents.len()),
        0 <= row < intents.len(),
        forall|k: int| 0 <= k < intents.len() && k != row ==> !(#[trigger] intents[k]).has_work(),
        carries_text(intents[row].pending_segment_time),
        time_accepted(intents[row].pending_segment_time->0),
        !carries_text(intents[row].pending_name),
        !carries_text(intents[row].pending_split),
        !carries_text(intents[row].pending_best_segment_time),
    ensures
        times_of(editor_rows(after)) == segment_time_set(
            before,
            row as usize,
            intents[row].pending_segment_time->0,
        ),
{
    let intent = intents[row];
    let text = intent.pending_segment_time->0;
    lemma_lone_commands(intents, row);
    assert(intent.commands() =~= seq![
        Command::SelectOnly(intent.index),
        Command::SetSegmentTime(text),
    ] + gesture_commands(intent.index, intent.selection_gesture));
    let states = lemma_lone_edit(
        before,
        intent.index,
        Command::SetSegmentTime(text),
        intent.selection_gesture,
        after,
    );
    assert(crate::selection::only(intent.index).last() == intent.index);
}

/// An edit of the best segment time lands on its row, as an edit of the
/// split time does.
pub proof fn lemma_best_segment_time_lands(
    before: RunEditor,
    intents: Seq<IntentModel>,
    after: RunEditor,
    row: int,
)
    requires
        ran(before, pass_trace(intents), after),
        aligned(intents, intents.len()),
        0 <= row < intents.len(),
        forall|k: int| 0 <= k < intents.len() && k != row ==> !(#[trigger] intents[k]).has_work(),
        carries_text(intents[row].pending_best_segment_time),
        time_accepted(intents[row].pending_best_segment_time->0),
        !carries_text(intents[row].pending_name),
        !carries_text(intents[row].pending_split),
        !carries_text(intents[row].pending_segment_time),
    ensures
        times_of(editor_rows(after)) == best_segment_time_set(
            before,
            row as usize,
            intents[row].pending_best_segment_time->0,
        ),
{
    let intent = intents[row];
    let text = intent.pending_best_segment_time->0;
    lemma_lone_commands(intents, row);
    assert(intent.commands() =~= seq![
        Command::SelectOnly(intent.index),
        Command::SetBestSegmentTime(text),
    ] + gesture_commands(intent.index, intent.selection_gesture));
    let states = lemma_lone_edit(
        before,
        intent.index,
        Command::SetBestSegmentTime(text),
        intent.selection_gesture,
        after,
    );
    assert(crate::selection::only(intent.index).last() == intent.index);
}

} // verus!

//! The commands that a pass hands to the run editor, and what it means that
//! a sequence of them was carried out.

use vstd::prelude::*;
use livesplit_core::RunEditor;
use crate::engine::{
    best_segment_time_edited, renamed_active, segment_time_edited, selected_additionally,
    selected_only, selected_range, split_time_edited, state_taken, unselected,
};
use crate::selection::SelectionGesture;

verus! {

/// One request to the run editor.
pub enum Command {
    /// Select the row alone.
    SelectOnly(usize),
    /// Select the row in addition to what is selected.
    SelectAdditionally(usize),
    /// Select from the active row through the row.
    SelectRange(usize),
    /// Take the row out of the selection.
    Unselect(usize),
    /// Give the active row the name.
    SetName(Seq<char>),
    /// Parse the text and set it as the split time of the active row.
    SetSplitTime(Seq<char>),
    /// Parse the text and set it as the segment time of the active row.
    SetSegmentTime(Seq<char>),
    /// Parse the text and set it as the best segment time of the active row.
    SetBestSegmentTime(Seq<char>),
    /// Report the state of the table, for a snapshot.
    TakeState,
}

/// The command that a gesture on `row` stands for.
pub open spec fn gesture_command(gesture: SelectionGesture, row: usize) -> Command {
    match gesture {
        SelectionGesture::Only => Command::SelectOnly(row),
        SelectionGesture::Additionally => Command::SelectAdditionally(row),
        SelectionGesture::Range => Command::SelectRange(row),
        SelectionGesture::Unselect => Command::Unselect(row),
    }
}

/// The run editor went from `before` to `after` by carrying out `command`.
pub open spec fn performed(before: RunEditor, command: Command, after: RunEditor) -> bool {
    match command {
        Command::SelectOnly(row) => selected_only(before, row, after),
        Command::SelectAdditionally(row) => selected_additionally(before, row, after),
        Command::SelectRange(row) => selected_range(before, row, after),
        Command::Unselect(row) => unselected(before, row, after),
        Command::SetName(name) => renamed_active(before, name, after),
        Command::SetSplitTime(text) => split_time_edited(before, text, after),
        Command::SetSegmentTime(text) => segment_time_edited(before, text, after),
        Command::SetBestSegmentTime(text) => best_segment_time_edited(before, text, after),
        Command::TakeState => state_taken(before, after),
    }
}

/// In the course `states` of the run editor, the step at place `at` carried
/// out the command at that place.
pub open spec fn step_at(commands: Seq<Command>, states: Seq<RunEditor>, at: int) -> bool {
    performed(states[at], commands[at], states[at + 1])
}

/// `states` is the course that the run editor took from `before` to `after`
/// while it carried out `commands`: one state before each command, and one
/// after the last.
pub open spec fn course(
    before: RunEditor,
    commands: Seq<Command>,
    states: Seq<RunEditor>,
    after: RunEditor,
) -> bool {
    &&& states.len() == commands.len() + 1
    &&& states[0] == before
    &&& states[states.len() - 1] == after
    &&& forall|at: int| 0 <= at < commands.len() ==> #[trigger] step_at(commands, states, at)
}

/// The run editor went from `before` to `after` by carrying out `commands`
/// one after the other, the first one first, and nothing else.
pub open spec fn ran(before: RunEditor, commands: Seq<Command>, after: RunEditor) -> bool {
    exists|states: Seq<RunEditor>| #[trigger] course(before, commands, states, after)
}

/// No command carried out: the run editor is as it was.
pub proof fn lemma_ran_none(before: RunEditor, after: RunEditor)
    ensures
        ran(before, Seq::empty(), after) <==> after == before,
{
    if after == before {
        assert(course(before, Seq::empty(), seq![before], after));
    }
}

/// One more command carried out.
pub proof fn lemma_ran_push(
    before: RunEditor,
    commands: Seq<Command>,
    middle: RunEditor,
    command: Command,
    after: RunEditor,
)
    requires
        ran(before, commands, middle),
        performed(middle, command, after),
    ensures
        ran(before, commands.push(command), after),
{
    let states = choose|states: Seq<RunEditor>| #[trigger] course(before, commands, states, middle);
    let longer = states.push(after);
    let more = commands.push(command);
    assert forall|at: int| 0 <= at < more.len() implies #[trigger] step_at(more, longer, at) by {
        if at < commands.len() {
            assert(step_at(commands, states, at));
        }
    }
    assert(course(before, more, longer, after));
}

/// Two runs in a row are one run of the commands of both.
pub proof fn lemma_ran_add(
    before: RunEditor,
    first: Seq<Command>,
    middle: RunEditor,
    second: Seq<Command>,
    after: RunEditor,
)
    requires
        ran(before, first, middle),
        ran(middle, second, after),
    ensures
        ran(before, first + second, after),
{
    let sooner = choose|states: Seq<RunEditor>| #[trigger] course(before, first, states, middle);
    let later = choose|states: Seq<RunEditor>| #[trigger] course(middle, second, states, after);
    let states = sooner + later.drop_first();
    let commands = first + second;
    assert forall|at: int| 0 <= at < commands.len() implies #[trigger] step_at(
        commands,
        states,
        at,
    ) by {
        if at < first.len() {
            assert(step_at(first, sooner, at));
        } else {
            assert(step_at(second, later, at - first.len()));
        }
    }
    assert(course(before, commands, states, after));
}

/// A run of one command is that command carried out.
pub proof fn lemma_ran_one(before: RunEditor, command: Command, after: RunEditor)
    ensures
        ran(before, seq![command], after) <==> performed(before, command, after),
{
    let one = seq![command];
    if performed(before, command, after) {
        let states = seq![before, after];
        assert(step_at(one, states, 0));
        assert(course(before, one, states, after));
    }
    if ran(before, one, after) {
        let states = choose|states: Seq<RunEditor>| #[trigger] course(before, one, states, after);
        assert(step_at(one, states, 0));
    }
}

/// Two commands carried out one after the other are a run of the two.
pub proof fn lemma_ran_two(
    before: RunEditor,
    first: Command,
    middle: RunEditor,
    second: Command,
    after: RunEditor,
)
    requires
        performed(before, first, middle),
        performed(middle, second, after),
    ensures
        ran(before, seq![first, second], after),
{
    lemma_ran_one(before, first, middle);
    lemma_ran_push(before, seq![first], middle, second, after);
    assert(seq![first].push(second) =~= seq![first, second]);
}

} // verus!

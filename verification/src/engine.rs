//! The run editor of `livesplit-core`, as far as the table relies on it.
//!
//! Nothing in this module is proved. Each function makes one call into the
//! run editor, and its contract says what the source of `livesplit-core`
//! shows of that call. Everything else in the crate is proved against these
//! contracts.

use vstd::prelude::*;
use livesplit_core::run::editor::{ParseError, SelectionState as EngineSelection};
use livesplit_core::{RunEditor, TimeSpan};
use crate::model::{names_kept, times_of, RowText, RowTimes, TableModel};
use crate::reach::{larger, largest_of, within_reach};
use crate::selection::{additionally, only, order_in_bounds, through, without, SelectionState};
use crate::snapshot::{views, SegmentView};

verus! {

/// The run editor. Its fields are private to `livesplit-core`.
#[verifier::external_type_specification]
#[verifier::external_body]
pub struct ExRunEditor(livesplit_core::RunEditor);

/// The error of the run editor's parse-and-set operations.
#[verifier::external_type_specification]
#[verifier::external_body]
pub struct ExParseError(livesplit_core::run::editor::ParseError);

/// The text that the run editor's state reports for each segment: the name,
/// and the split time, segment time and best segment time of the selected
/// timing method, formatted.
pub uninterp spec fn editor_rows(editor: RunEditor) -> Seq<RowText>;

/// The run editor's list of selected segments, in order of selection. The
/// last one is the active segment.
pub uninterp spec fn selection_order(editor: RunEditor) -> Seq<usize>;

/// For each segment, the whole seconds of its split time for the selected
/// timing method, where it has one.
pub uninterp spec fn split_seconds(editor: RunEditor) -> Seq<Option<int>>;

/// What `TimeSpan::parse_opt` makes of `text`: nothing if it is no time,
/// no time if it is blank, and else the seconds and the nanoseconds of the
/// time that it stands for. The two have the same sign.
pub uninterp spec fn parsed_time(text: Seq<char>) -> Option<Option<(int, int)>>;

/// The time cells that the run editor reports once
/// `parse_and_set_split_time` has taken `text` for the segment at `row`.
pub uninterp spec fn split_time_set(editor: RunEditor, row: usize, text: Seq<char>) -> Seq<RowTimes>;

/// The time cells that the run editor reports once
/// `parse_and_set_segment_time` has taken `text` for the segment at `row`.
pub uninterp spec fn segment_time_set(editor: RunEditor, row: usize, text: Seq<char>) -> Seq<
    RowTimes,
>;

/// The time cells that the run editor reports once
/// `parse_and_set_best_segment_time` has taken `text` for the segment at
/// `row`.
pub uninterp spec fn best_segment_time_set(editor: RunEditor, row: usize, text: Seq<char>) -> Seq<
    RowTimes,
>;

/// The error of `TimeSpan::parse_opt`.
#[verifier::external_type_specification]
#[verifier::external_body]
pub struct ExTimeParseError(livesplit_core::timing::ParseError);

/// Whether a time of these seconds and nanoseconds is not below zero.
pub open spec fn not_negative(seconds: int, nanoseconds: int) -> bool {
    seconds > 0 || (seconds == 0 && nanoseconds >= 0)
}

/// Whether the run editor takes `text` for the time of a segment: the text
/// is blank, or it stands for a time that is not negative. The three
/// parse-and-set operations for the times of a segment all decide so.
pub open spec fn time_accepted(text: Seq<char>) -> bool {
    match parsed_time(text) {
        Some(Some((seconds, nanoseconds))) => not_negative(seconds, nanoseconds),
        Some(None) => true,
        None => false,
    }
}

/// The whole seconds of the time that the run editor sets for `text`. There
/// is none where the text is not taken, and none where it is blank, which
/// clears the time.
pub open spec fn time_read(text: Seq<char>) -> Option<int> {
    match parsed_time(text) {
        Some(Some((seconds, nanoseconds))) => if not_negative(seconds, nanoseconds) {
            Some(seconds)
        } else {
            None
        },
        _ => None,
    }
}

/// The table that `editor` holds.
pub open spec fn table_of(editor: RunEditor) -> TableModel {
    TableModel { rows: editor_rows(editor), order: selection_order(editor) }
}

/// The whole seconds of the largest split time that `editor` holds for the
/// selected timing method.
pub open spec fn largest_seconds(editor: RunEditor) -> int {
    largest_of(split_seconds(editor))
}

/// The run editor has an active segment, and it is one of its segments.
pub open spec fn has_active_row(editor: RunEditor) -> bool {
    &&& selection_order(editor).len() > 0
    &&& selection_order(editor).last() < editor_rows(editor).len()
}

/// From `before` to `after` no time was touched: the split times are the
/// same, and so is what any time edit would make of the time cells.
pub open spec fn times_untouched(before: RunEditor, after: RunEditor) -> bool {
    &&& split_seconds(after) == split_seconds(before)
    &&& forall|row: usize, text: Seq<char>|
        #![trigger split_time_set(after, row, text)]
        split_time_set(after, row, text) == split_time_set(before, row, text)
    &&& forall|row: usize, text: Seq<char>|
        #![trigger segment_time_set(after, row, text)]
        segment_time_set(after, row, text) == segment_time_set(before, row, text)
    &&& forall|row: usize, text: Seq<char>|
        #![trigger best_segment_time_set(after, row, text)]
        best_segment_time_set(after, row, text) == best_segment_time_set(before, row, text)
}

/// What `select_only` does: the segment at `index` is the only selected
/// one, and nothing but the selection has changed.
pub open spec fn selected_only(before: RunEditor, index: usize, after: RunEditor) -> bool {
    &&& selection_order(after) == only(index)
    &&& editor_rows(after) == editor_rows(before)
    &&& times_untouched(before, after)
}

/// What `select_additionally` does: the segment at `index` leaves its place
/// in the selection, if it had one, and is put at its end. Nothing but the
/// selection has changed.
pub open spec fn selected_additionally(before: RunEditor, index: usize, after: RunEditor) -> bool {
    &&& selection_order(after) == additionally(selection_order(before), index)
    &&& editor_rows(after) == editor_rows(before)
    &&& times_untouched(before, after)
}

/// What `select_range` does: the segments strictly between the active one
/// and `index` that are not selected yet are appended in ascending order,
/// then `index` is selected additionally. Nothing but the selection has
/// changed.
pub open spec fn selected_range(before: RunEditor, index: usize, after: RunEditor) -> bool {
    &&& selection_order(after) == through(selection_order(before), index)
    &&& editor_rows(after) == editor_rows(before)
    &&& times_untouched(before, after)
}

/// What `unselect` does: the segment at `index` leaves the selection, unless
/// that would leave nothing selected. Nothing but the selection has changed.
pub open spec fn unselected(before: RunEditor, index: usize, after: RunEditor) -> bool {
    &&& selection_order(after) == without(selection_order(before), index)
    &&& editor_rows(after) == editor_rows(before)
    &&& times_untouched(before, after)
}

/// What `set_name` on the active segment does: that segment has the name,
/// and nothing else has changed.
pub open spec fn renamed_active(before: RunEditor, name: Seq<char>, after: RunEditor) -> bool {
    &&& selection_order(after) == selection_order(before)
    &&& editor_rows(after) == editor_rows(before).update(
        selection_order(before).last() as int,
        editor_rows(before)[selection_order(before).last() as int].renamed(name),
    )
    &&& times_untouched(before, after)
}

/// What an edit of a time cell keeps, when the text is taken: the selection,
/// the names and the number of segments.
pub open spec fn frame_kept(before: RunEditor, after: RunEditor) -> bool {
    &&& selection_order(after) == selection_order(before)
    &&& names_kept(editor_rows(before), editor_rows(after))
    &&& split_seconds(after).len() == split_seconds(before).len()
}

/// What `parse_and_set_split_time` on the active segment does. Text that is
/// not taken changes nothing at all. Text that is taken gives the time cells
/// their new text. The run editor raises the split times below to the new
/// one where they were smaller, so no split time ends up above both the
/// largest one before and the new one.
pub open spec fn split_time_edited(before: RunEditor, text: Seq<char>, after: RunEditor) -> bool {
    if time_accepted(text) {
        &&& frame_kept(before, after)
        &&& times_of(editor_rows(after)) == split_time_set(
            before,
            selection_order(before).last(),
            text,
        )
        &&& largest_seconds(after) <= match time_read(text) {
            Some(seconds) => larger(largest_seconds(before), seconds),
            None => largest_seconds(before),
        }
    } else {
        after == before
    }
}

/// Whether the run editor can set the segment time that `text` stands for
/// when its largest split time has `largest` whole seconds: the two and a
/// second for their fractions stay below the limit. Text that sets no time
/// can always be handed over.
pub open spec fn segment_time_fits(largest: int, text: Seq<char>) -> bool {
    time_read(text) matches Some(seconds) ==> within_reach(largest, seconds + 1)
}

/// What `parse_and_set_segment_time` on the active segment does. Text that
/// is not taken changes nothing at all. Text that is taken gives the time
/// cells their new text. The split times from the segment on move by the
/// difference of the new segment time to the old one, which is no more than
/// the new one.
pub open spec fn segment_time_edited(before: RunEditor, text: Seq<char>, after: RunEditor) -> bool {
    if time_accepted(text) {
        &&& frame_kept(before, after)
        &&& times_of(editor_rows(after)) == segment_time_set(
            before,
            selection_order(before).last(),
            text,
        )
        &&& largest_seconds(after) <= match time_read(text) {
            Some(seconds) => largest_seconds(before) + seconds + 1,
            None => largest_seconds(before),
        }
    } else {
        after == before
    }
}

/// What `parse_and_set_best_segment_time` on the active segment does. Text
/// that is not taken changes nothing at all. Text that is taken gives the
/// time cells their new text and leaves every split time as it is.
pub open spec fn best_segment_time_edited(
    before: RunEditor,
    text: Seq<char>,
    after: RunEditor,
) -> bool {
    if time_accepted(text) {
        &&& frame_kept(before, after)
        &&& times_of(editor_rows(after)) == best_segment_time_set(
            before,
            selection_order(before).last(),
            text,
        )
        &&& split_seconds(after) == split_seconds(before)
    } else {
        after == before
    }
}

/// What `state` does to the run editor: the table is as it was, and no time
/// was touched. The run editor only notes which icons it has handed out.
pub open spec fn state_taken(before: RunEditor, after: RunEditor) -> bool {
    &&& table_of(after) == table_of(before)
    &&& times_untouched(before, after)
}

/// `RunEditor::select_only`. It panics on an index that is out of bounds.
#[verifier::external_body]
pub(crate) fn select_only(editor: &mut RunEditor, index: usize)
    requires
        index < editor_rows(*old(editor)).len(),
    ensures
        selected_only(*old(editor), index, *final(editor)),
{
    editor.select_only(index);
}

/// `RunEditor::select_additionally`. It panics on an index that is out of
/// bounds.
#[verifier::external_body]
pub(crate) fn select_additionally(editor: &mut RunEditor, index: usize)
    requires
        index < editor_rows(*old(editor)).len(),
    ensures
        selected_additionally(*old(editor), index, *final(editor)),
{
    editor.select_additionally(index);
}

/// `RunEditor::select_range`. It panics on an index that is out of bounds.
#[verifier::external_body]
pub(crate) fn select_range(editor: &mut RunEditor, index: usize)
    requires
        index < editor_rows(*old(editor)).len(),
        selection_order(*old(editor)).len() > 0,
    ensures
        selected_range(*old(editor), index, *final(editor)),
{
    editor.select_range(index);
}

/// `RunEditor::unselect`. It never panics.
#[verifier::external_body]
pub(crate) fn unselect(editor: &mut RunEditor, index: usize)
    ensures
        unselected(*old(editor), index, *final(editor)),
{
    editor.unselect(index);
}

/// `SegmentRow::set_name` on `RunEditor::active_segment`.
#[verifier::external_body]
pub(crate) fn set_active_name(editor: &mut RunEditor, name: &str)
    requires
        has_active_row(*old(editor)),
    ensures
        renamed_active(*old(editor), name@, *final(editor)),
{
    editor.active_segment().set_name(name);
}

/// `SegmentRow::parse_and_set_split_time` on `RunEditor::active_segment`.
/// Whether the text is taken depends on the text alone.
#[verifier::external_body]
pub(crate) fn parse_and_set_active_split_time(editor: &mut RunEditor, text: &str) -> (result:
    Result<(), ParseError>)
    requires
        has_active_row(*old(editor)),
    ensures
        result is Ok <==> time_accepted(text@),
        result is Ok ==> times_of(editor_rows(*final(editor))) == split_time_set(
            *old(editor),
            selection_order(*old(editor)).last(),
            text@,
        ),
        split_time_edited(*old(editor), text@, *final(editor)),
{
    editor.active_segment().parse_and_set_split_time(text)
}

/// `SegmentRow::parse_and_set_segment_time` on `RunEditor::active_segment`.
/// Whether the text is taken depends on the text alone. The run editor adds
/// the segment times up to get the split times, and aborts if a sum
/// overflows: the largest split time and the new segment time must together
/// stay below the limit.
#[verifier::external_body]
pub(crate) fn parse_and_set_active_segment_time(editor: &mut RunEditor, text: &str) -> (result:
    Result<(), ParseError>)
    requires
        has_active_row(*old(editor)),
        segment_time_fits(largest_seconds(*old(editor)), text@),
    ensures
        result is Ok <==> time_accepted(text@),
        result is Ok ==> times_of(editor_rows(*final(editor))) == segment_time_set(
            *old(editor),
            selection_order(*old(editor)).last(),
            text@,
        ),
        segment_time_edited(*old(editor), text@, *final(editor)),
{
    editor.active_segment().parse_and_set_segment_time(text)
}

/// `SegmentRow::parse_and_set_best_segment_time` on
/// `RunEditor::active_segment`. Whether the text is taken depends on the
/// text alone.
#[verifier::external_body]
pub(crate) fn parse_and_set_active_best_segment_time(editor: &mut RunEditor, text: &str) -> (result:
    Result<(), ParseError>)
    requires
        has_active_row(*old(editor)),
    ensures
        result is Ok <==> time_accepted(text@),
        result is Ok ==> times_of(editor_rows(*final(editor))) == best_segment_time_set(
            *old(editor),
            selection_order(*old(editor)).last(),
            text@,
        ),
        best_segment_time_edited(*old(editor), text@, *final(editor)),
{
    editor.active_segment().parse_and_set_best_segment_time(text)
}

/// `TimeSpan::parse_opt`, with the time turned into its seconds and
/// nanoseconds by `TimeSpan::to_seconds_and_subsec_nanoseconds`.
#[verifier::external_body]
pub(crate) fn parse_time(text: &str) -> (result: Result<
    Option<(i64, i32)>,
    livesplit_core::timing::ParseError,
>)
    ensures
        parsed_time(text@) == match result {
            Ok(Some((seconds, nanoseconds))) => Some(Some((seconds as int, nanoseconds as int))),
            Ok(None) => Some(None),
            Err(_) => None,
        },
{
    match TimeSpan::parse_opt(text) {
        Ok(Some(time)) => Ok(Some(time.to_seconds_and_subsec_nanoseconds())),
        Ok(None) => Ok(None),
        Err(error) => Err(error),
    }
}

/// The split time of the segment at `index` for the selected timing method,
/// in whole seconds: `Run::segment` and `Segment::personal_best_split_time`
/// on `RunEditor::run`, read at `RunEditor::selected_timing_method`. It
/// panics on an index that is out of bounds.
#[verifier::external_body]
pub(crate) fn split_time_seconds(editor: &RunEditor, index: usize) -> (seconds: Option<i64>)
    requires
        index < editor_rows(*editor).len(),
    ensures
        match seconds {
            Some(count) => split_seconds(*editor)[index as int] == Some(count as int),
            None => split_seconds(*editor)[index as int] is None,
        },
{
    let method = editor.selected_timing_method();
    match editor.run().segment(index).personal_best_split_time()[method] {
        Some(time) => Some(time.to_seconds_and_subsec_nanoseconds().0),
        None => None,
    }
}

/// `RunEditor::state`, with each segment of the state turned into a
/// [`SegmentView`]. The rows come out in order, with the text
/// that the run editor reports and the selection state that the selection
/// gives them; the selection is never empty and names only segments that
/// exist, and there is a split time, or none, for each segment.
#[verifier::external_body]
pub(crate) fn render(editor: &mut RunEditor) -> (segments: Vec<SegmentView>)
    ensures
        state_taken(*old(editor), *final(editor)),
        order_in_bounds(selection_order(*final(editor)), editor_rows(*final(editor)).len()),
        split_seconds(*final(editor)).len() == editor_rows(*final(editor)).len(),
        views(segments@) == table_of(*final(editor)).shown(),
{
    editor.state().segments.into_iter().map(|segment| SegmentView {
        name: segment.name,
        split_time: segment.split_time,
        segment_time: segment.segment_time,
        best_segment_time: segment.best_segment_time,
        selection: match segment.selected {
            EngineSelection::NotSelected => SelectionState::Unselected,
            EngineSelection::Selected => SelectionState::Selected,
            EngineSelection::Active => SelectionState::Active,
        },
    }).collect()
}

} // verus!

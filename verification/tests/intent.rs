use std::rc::Rc;

use livesplit_core::{Run, RunEditor, Segment};
use segment_table::intent::{detect_edit, RowIntent};
use segment_table::selection::{Modifiers, SelectionGesture, SelectionState};
use segment_table::table::State;
use segment_table::validated::ValidatedString;
use segment_table::widget::{RowFill, RunEditorWidget, SegmentWidget};

fn table_of(names: &[&str]) -> State {
    let mut run = Run::new();
    for name in names {
        run.push_segment(Segment::new(*name));
    }
    State::new(RunEditor::new(run).unwrap())
}

const PLAIN: Modifiers = Modifiers { shift: false, ctrl: false };
const CTRL: Modifiers = Modifiers { shift: false, ctrl: true };
const SHIFT: Modifiers = Modifiers { shift: true, ctrl: false };

#[test]
fn detect_edit_records_only_a_difference() {
    assert_eq!(detect_edit("new".to_string(), &"old".to_string()), Some("new".to_string()));
    assert_eq!(detect_edit("old".to_string(), &"old".to_string()), None);
    assert_eq!(detect_edit(String::new(), &"old".to_string()), Some(String::new()));
    assert_eq!(detect_edit(String::new(), &String::new()), None);
}

#[test]
fn edits_are_compared_with_the_snapshot() {
    let state = table_of(&["A", "B"]);
    let mut intent = RowIntent::new(state.snapshot(), 1);
    intent.edit_name("B".to_string());
    assert!(intent.pending_name().is_none());
    assert!(!intent.has_work());
    intent.edit_name("Bee".to_string());
    assert_eq!(intent.pending_name().as_deref(), Some("Bee"));
    assert!(intent.has_work());
    intent.edit_name("B".to_string());
    assert!(intent.pending_name().is_none());
    assert!(!intent.has_work());
}

#[test]
fn each_time_cell_has_its_own_pending_text() {
    let state = table_of(&["A"]);
    let mut intent = RowIntent::new(state.snapshot(), 0);
    intent.edit_split_time(String::new());
    intent.edit_segment_time(String::new());
    intent.edit_best_segment_time(String::new());
    assert!(intent.pending_split().is_none());
    assert!(intent.pending_segment_time().is_none());
    assert!(intent.pending_best_segment_time().is_none());
    intent.edit_split_time("1".to_string());
    intent.edit_segment_time("2".to_string());
    intent.edit_best_segment_time("3".to_string());
    assert_eq!(intent.pending_split().as_deref(), Some("1"));
    assert_eq!(intent.pending_segment_time().as_deref(), Some("2"));
    assert_eq!(intent.pending_best_segment_time().as_deref(), Some("3"));
    assert!(intent.pending_name().is_none());
    assert_eq!(intent.index(), 0);
}

#[test]
fn pointer_down_classifies_by_the_snapshot() {
    let state = table_of(&["A", "B", "C"]);
    let mut on_active = RowIntent::new(state.snapshot(), 0);
    on_active.pointer_down(PLAIN);
    assert_eq!(on_active.selection_gesture(), None);
    on_active.pointer_down(CTRL);
    assert_eq!(on_active.selection_gesture(), Some(SelectionGesture::Unselect));
    on_active.pointer_down(PLAIN);
    assert_eq!(on_active.selection_gesture(), Some(SelectionGesture::Unselect));

    let mut on_other = RowIntent::new(state.snapshot(), 2);
    on_other.pointer_down(SHIFT);
    assert_eq!(on_other.selection_gesture(), Some(SelectionGesture::Range));
    on_other.pointer_down(CTRL);
    assert_eq!(on_other.selection_gesture(), Some(SelectionGesture::Additionally));
    on_other.pointer_down(PLAIN);
    assert_eq!(on_other.selection_gesture(), Some(SelectionGesture::Only));
}

#[test]
fn apply_empties_the_intent() {
    let state = table_of(&["A", "B"]);
    let snapshot = state.snapshot();
    let mut editor = state.close();
    let mut intent = RowIntent::new(Rc::clone(&snapshot), 1);
    intent.edit_name("Bee".to_string());
    intent.edit_split_time("5".to_string());
    intent.request(SelectionGesture::Additionally);
    assert!(intent.apply(&mut editor));
    assert!(!intent.has_work());
    assert!(intent.pending_name().is_none());
    assert!(intent.pending_split().is_none());
    assert!(intent.selection_gesture().is_none());
    assert_eq!(intent.index(), 1);
    assert!(Rc::ptr_eq(intent.snapshot(), &snapshot));
    assert!(!intent.apply(&mut editor));

    let after = State::new(editor);
    let shown = after.snapshot();
    assert_eq!(shown.segment(1).name, "Bee");
    assert_eq!(shown.segment(1).split_time, "5.00");
    assert_eq!(shown.selection(1), SelectionState::Active);
    assert_eq!(shown.selection(0), SelectionState::Unselected);
}

#[test]
fn all_four_cells_of_a_row_are_edited() {
    let mut state = table_of(&["A", "B"]);
    let mut intents = state.rows();
    intents[0].edit_name("One".to_string());
    intents[0].edit_split_time("10".to_string());
    intents[0].edit_best_segment_time("9.5".to_string());
    intents[1].edit_segment_time("20".to_string());
    assert!(state.reconcile(&mut intents));
    let shown = state.snapshot();
    assert_eq!(shown.segment(0).name, "One");
    assert_eq!(shown.segment(0).split_time, "10.00");
    assert_eq!(shown.segment(0).best_segment_time, "9.50");
    assert_eq!(shown.segment(1).segment_time, "20.00");
    assert_eq!(shown.segment(1).split_time, "30.00");
    assert_eq!(shown.active_index(), Some(1));
}

#[test]
fn bad_time_does_not_stop_the_rest_of_the_pass() {
    let mut state = table_of(&["A", "B", "C"]);
    let mut intents = state.rows();
    intents[0].edit_split_time("x".to_string());
    intents[0].edit_segment_time("-5".to_string());
    intents[1].edit_name("Bee".to_string());
    intents[2].edit_best_segment_time("7".to_string());
    assert!(state.reconcile(&mut intents));
    let shown = state.snapshot();
    assert_eq!(shown.segment(0).split_time, "");
    assert_eq!(shown.segment(0).segment_time, "");
    assert_eq!(shown.segment(1).name, "Bee");
    assert_eq!(shown.segment(2).best_segment_time, "7.00");
}

#[test]
fn same_compares_content_and_version() {
    let mut state = table_of(&["A", "B"]);
    let first = RowIntent::new(state.snapshot(), 0);
    let mut second = RowIntent::new(state.snapshot(), 0);
    assert!(first.same(&second));
    assert!(!first.same(&RowIntent::new(state.snapshot(), 1)));
    second.edit_name("x".to_string());
    assert!(!first.same(&second));
    second.edit_name("A".to_string());
    assert!(first.same(&second));
    second.request(SelectionGesture::Only);
    assert!(!first.same(&second));

    let mut intents = state.rows();
    intents[1].request(SelectionGesture::Only);
    assert!(state.reconcile(&mut intents));
    assert!(!first.same(&RowIntent::new(state.snapshot(), 0)));
}

#[test]
fn segment_widget_decides_for_the_row() {
    let state = table_of(&["A", "B", "C"]);
    let mut widget = SegmentWidget::new(7u32);
    assert_eq!(*widget.inner(), 7);
    *widget.inner_mut() = 8;
    assert_eq!(*widget.inner(), 8);

    let mut on_active = RowIntent::new(state.snapshot(), 0);
    assert!(!widget.pointer_down(&mut on_active, CTRL));
    assert_eq!(on_active.selection_gesture(), Some(SelectionGesture::Unselect));
    assert_eq!(widget.fill(&on_active), RowFill::Highlight);

    let mut on_odd = RowIntent::new(state.snapshot(), 1);
    assert!(widget.pointer_down(&mut on_odd, PLAIN));
    assert_eq!(on_odd.selection_gesture(), Some(SelectionGesture::Only));
    assert_eq!(widget.fill(&on_odd), RowFill::Odd);

    let on_even = RowIntent::new(state.snapshot(), 2);
    assert_eq!(widget.fill(&on_even), RowFill::Even);

    assert!(widget.needs_paint(&on_odd, &RowIntent::new(state.snapshot(), 1)));
    assert!(!widget.needs_paint(&on_even, &RowIntent::new(state.snapshot(), 2)));
    assert_eq!(widget.into_inner(), 8);
}

#[test]
fn run_editor_widget_hands_through() {
    let mut widget = RunEditorWidget::new("tree".to_string());
    assert_eq!(widget.inner(), "tree");
    widget.inner_mut().push('s');
    assert_eq!(widget.into_inner(), "trees");
}

#[test]
fn closed_with_ok_is_remembered() {
    let mut state = table_of(&["A"]);
    assert!(!state.closed_with_ok());
    state.set_closed_with_ok(true);
    assert!(state.closed_with_ok());
    assert_eq!(state.snapshot().version(), 0);
    let run = state.close().close();
    assert_eq!(run.len(), 1);
}

#[test]
fn validated_string_holds_text_and_mark() {
    let mut text = ValidatedString::from_str("50%");
    assert_eq!(text.as_str(), "50%");
    assert_eq!(text.len(), 3);
    assert!(!text.is_empty());
    assert!(text.is_valid());
    assert!(text.same(&ValidatedString::from_str("50%")));
    assert!(!text.same(&ValidatedString::from_str("51%")));

    text.set_valid(false);
    assert!(!text.is_valid());
    assert_eq!(text.as_str(), "50%");
    assert!(!text.same(&ValidatedString::from_str("50%")));

    text.set_formatted("é".to_string());
    assert!(text.is_valid());
    assert_eq!(text.as_str(), "é");
    assert_eq!(text.len(), 2);
    assert!(ValidatedString::from_str("").is_empty());
}

#[test]
fn write_back_is_needed_for_new_text_only() {
    let text = ValidatedString::from_str("12");
    assert!(text.needs_write_back(&None));
    assert!(text.needs_write_back(&Some("13".to_string())));
    assert!(!text.needs_write_back(&Some("12".to_string())));
}

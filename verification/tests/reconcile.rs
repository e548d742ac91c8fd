use std::rc::Rc;

use livesplit_core::{Run, RunEditor, Segment, Time, TimeSpan};
use segment_table::intent::RowIntent;
use segment_table::selection::{Modifiers, SelectionGesture, SelectionState};
use segment_table::snapshot::Snapshot;
use segment_table::table::State;

fn editor_of(names: &[&str]) -> RunEditor {
    let mut run = Run::new();
    for name in names {
        run.push_segment(Segment::new(*name));
    }
    RunEditor::new(run).unwrap()
}

fn editor_with_splits(rows: &[(&str, f64)]) -> RunEditor {
    let mut run = Run::new();
    for (name, seconds) in rows {
        let mut segment = Segment::new(*name);
        segment.set_personal_best_split_time(
            Time::new().with_real_time(Some(TimeSpan::from_seconds(*seconds))),
        );
        run.push_segment(segment);
    }
    RunEditor::new(run).unwrap()
}

fn selections(snapshot: &Snapshot) -> Vec<SelectionState> {
    (0..snapshot.len()).map(|row| snapshot.selection(row)).collect()
}

fn names(snapshot: &Snapshot) -> Vec<String> {
    (0..snapshot.len()).map(|row| snapshot.segment(row).name.clone()).collect()
}

const PLAIN: Modifiers = Modifiers { shift: false, ctrl: false };

#[test]
fn new_state_shows_the_editor() {
    let state = State::new(editor_of(&["A", "B", "C"]));
    let snapshot = state.snapshot();
    assert_eq!(state.data_len(), 3);
    assert_eq!(snapshot.len(), 3);
    assert!(!snapshot.is_empty());
    assert_eq!(snapshot.version(), 0);
    assert_eq!(names(&snapshot), vec!["A", "B", "C"]);
    assert_eq!(
        selections(&snapshot),
        vec![SelectionState::Active, SelectionState::Unselected, SelectionState::Unselected]
    );
    assert_eq!(snapshot.active_index(), Some(0));
    assert!(!state.closed_with_ok());
}

#[test]
fn rows_are_blank_and_aligned() {
    let state = State::new(editor_of(&["A", "B", "C"]));
    let intents = state.rows();
    assert_eq!(intents.len(), 3);
    for (row, intent) in intents.iter().enumerate() {
        assert_eq!(intent.index(), row);
        assert!(!intent.has_work());
        assert!(intent.pending_name().is_none());
        assert!(intent.pending_split().is_none());
        assert!(intent.pending_segment_time().is_none());
        assert!(intent.pending_best_segment_time().is_none());
        assert!(intent.selection_gesture().is_none());
        assert!(Rc::ptr_eq(intent.snapshot(), &state.snapshot()));
    }
}

#[test]
fn idle_pass_changes_nothing() {
    let mut state = State::new(editor_of(&["A", "B", "C"]));
    let before = state.snapshot();
    let mut intents = state.rows();
    let changed = state.reconcile(&mut intents);
    assert!(!changed);
    let after = state.snapshot();
    assert!(Rc::ptr_eq(&before, &after));
    assert_eq!(after.version(), 0);
}

#[test]
fn empty_text_is_no_work() {
    let mut state = State::new(editor_of(&["A", "B"]));
    let before = state.snapshot();
    let mut intents = state.rows();
    intents[1].edit_name(String::new());
    assert_eq!(intents[1].pending_name().as_deref(), Some(""));
    assert!(!intents[1].has_work());
    let changed = state.reconcile(&mut intents);
    assert!(!changed);
    assert!(Rc::ptr_eq(&before, &state.snapshot()));
    assert_eq!(names(&state.snapshot()), vec!["A", "B"]);
    assert!(intents[1].pending_name().is_none());
}

#[test]
fn one_rebuild_for_many_rows() {
    let mut state = State::new(editor_of(&["A", "B", "C", "D"]));
    let mut intents = state.rows();
    intents[0].edit_name("W".to_string());
    intents[1].edit_name("X".to_string());
    intents[2].edit_name("Y".to_string());
    intents[3].edit_name("Z".to_string());
    assert!(state.reconcile(&mut intents));
    let snapshot = state.snapshot();
    assert_eq!(snapshot.version(), 1);
    assert_eq!(names(&snapshot), vec!["W", "X", "Y", "Z"]);
    let mut intents = state.rows();
    intents[2].request(SelectionGesture::Only);
    assert!(state.reconcile(&mut intents));
    assert_eq!(state.snapshot().version(), 2);
    let mut intents = state.rows();
    assert!(!state.reconcile(&mut intents));
    assert_eq!(state.snapshot().version(), 2);
}

#[test]
fn select_only_is_exclusive() {
    let mut state = State::new(editor_of(&["A", "B", "C", "D"]));
    let mut intents = state.rows();
    intents[1].request(SelectionGesture::Additionally);
    intents[3].request(SelectionGesture::Additionally);
    assert!(state.reconcile(&mut intents));
    let mut intents = state.rows();
    intents[2].request(SelectionGesture::Only);
    assert!(state.reconcile(&mut intents));
    let snapshot = state.snapshot();
    for row in 0..4 {
        if row == 2 {
            assert_eq!(snapshot.selection(row), SelectionState::Active);
        } else {
            assert_eq!(snapshot.selection(row), SelectionState::Unselected);
        }
    }
    assert_eq!(snapshot.active_index(), Some(2));
}

#[test]
fn name_edit_lands_on_its_row() {
    let mut state = State::new(editor_of(&["A", "B", "C"]));
    let mut intents = state.rows();
    intents[2].request(SelectionGesture::Only);
    assert!(state.reconcile(&mut intents));
    assert_eq!(state.snapshot().active_index(), Some(2));
    let mut intents = state.rows();
    intents[0].edit_name("First".to_string());
    assert!(state.reconcile(&mut intents));
    let snapshot = state.snapshot();
    assert_eq!(names(&snapshot), vec!["First", "B", "C"]);
    assert_eq!(snapshot.active_index(), Some(0));
}

#[test]
fn last_gesture_wins() {
    let mut state = State::new(editor_of(&["A", "B", "C", "D", "E", "F", "G"]));
    let mut intents = state.rows();
    intents[2].request(SelectionGesture::Additionally);
    intents[5].request(SelectionGesture::Additionally);
    intents[1].request(SelectionGesture::Additionally);
    assert!(state.reconcile(&mut intents));
    let snapshot = state.snapshot();
    assert_eq!(snapshot.active_index(), Some(5));
    assert_eq!(
        selections(&snapshot),
        vec![
            SelectionState::Selected,
            SelectionState::Selected,
            SelectionState::Selected,
            SelectionState::Unselected,
            SelectionState::Unselected,
            SelectionState::Active,
            SelectionState::Unselected,
        ]
    );
}

#[test]
fn later_edit_takes_the_active_row_from_a_gesture() {
    let mut state = State::new(editor_of(&["A", "B", "C", "D"]));
    let mut intents = state.rows();
    intents[1].request(SelectionGesture::Only);
    intents[3].edit_name("Last".to_string());
    assert!(state.reconcile(&mut intents));
    let snapshot = state.snapshot();
    assert_eq!(snapshot.active_index(), Some(3));
    assert_eq!(snapshot.selection(1), SelectionState::Unselected);
    assert_eq!(snapshot.segment(3).name, "Last");
}

#[test]
fn scenario_only_on_row_one() {
    let mut state = State::new(editor_of(&["A", "B", "C"]));
    let mut intents = state.rows();
    intents[1].pointer_down(PLAIN);
    assert_eq!(intents[1].selection_gesture(), Some(SelectionGesture::Only));
    assert!(state.reconcile(&mut intents));
    let snapshot = state.snapshot();
    assert_eq!(snapshot.selection(1), SelectionState::Active);
    assert_eq!(snapshot.selection(0), SelectionState::Unselected);
    assert_eq!(snapshot.selection(2), SelectionState::Unselected);
}

#[test]
fn scenario_split_time_is_set() {
    let mut state = State::new(editor_of(&["A", "B", "C"]));
    let mut intents = state.rows();
    intents[2].request(SelectionGesture::Only);
    assert!(state.reconcile(&mut intents));
    let mut intents = state.rows();
    intents[0].edit_split_time("1:23.45".to_string());
    assert_eq!(intents[0].pending_split().as_deref(), Some("1:23.45"));
    assert!(state.reconcile(&mut intents));
    let snapshot = state.snapshot();
    assert_eq!(snapshot.segment(0).split_time, "1:23.45");
    assert_eq!(snapshot.selection(0), SelectionState::Active);
}

#[test]
fn scenario_bad_split_time_is_dropped() {
    let mut state = State::new(editor_with_splits(&[("A", 10.0), ("B", 25.5)]));
    let before = state.snapshot();
    assert_eq!(before.segment(0).split_time, "10.00");
    let mut intents = state.rows();
    intents[0].edit_split_time("not-a-time".to_string());
    let changed = state.reconcile(&mut intents);
    assert!(changed);
    let after = state.snapshot();
    assert_eq!(after.version(), 1);
    assert_eq!(after.segment(0).split_time, before.segment(0).split_time);
    assert_eq!(after.segment(0).segment_time, before.segment(0).segment_time);
    assert_eq!(after.segment(1).split_time, "25.50");
    assert!(intents[0].pending_split().is_none());
}

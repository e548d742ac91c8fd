use std::rc::Rc;

use livesplit_core::{Run, RunEditor, Segment};
use segment_table::intent::RowIntent;
use segment_table::selection::{SelectionGesture, SelectionState};
use segment_table::table::State;

fn editor_of(names: &[&str]) -> RunEditor {
    let mut run = Run::new();
    for name in names {
        run.push_segment(Segment::new(*name));
    }
    RunEditor::new(run).unwrap()
}

#[test]
fn versions_follow_each_other() {
    let state = State::new(editor_of(&["A"]));
    let snapshot = state.snapshot();
    assert_eq!(snapshot.version(), 0);
    assert_eq!(snapshot.following_version(), 1);
    let late = State::with_version(state.close(), u64::MAX - 1);
    assert_eq!(late.snapshot().version(), u64::MAX - 1);
    assert_eq!(late.snapshot().following_version(), u64::MAX);
}

#[test]
fn versions_wrap_around() {
    let mut state = State::with_version(editor_of(&["A", "B"]), u64::MAX);
    assert_eq!(state.snapshot().version(), u64::MAX);
    assert_eq!(state.snapshot().following_version(), 0);
    let mut intents = state.rows();
    intents[1].request(SelectionGesture::Only);
    assert!(state.reconcile(&mut intents));
    assert_eq!(state.snapshot().version(), 0);
    assert_eq!(state.snapshot().selection(1), SelectionState::Active);
}

#[test]
fn editor_comes_back_changed() {
    let mut state = State::new(editor_of(&["A", "B"]));
    let mut intents = state.rows();
    intents[1].edit_name("Bee".to_string());
    assert!(state.reconcile(&mut intents));
    let following = state.snapshot().following_version();
    let mut editor = state.close();
    editor.insert_segment_above();
    let state = State::with_version(editor, following);
    let snapshot = state.snapshot();
    assert_eq!(snapshot.version(), 2);
    assert_eq!(state.data_len(), 3);
    assert_eq!(snapshot.segment(0).name, "A");
    assert_eq!(snapshot.segment(1).name, "");
    assert_eq!(snapshot.segment(2).name, "Bee");
    assert_eq!(snapshot.active_index(), Some(1));
    assert!(!state.closed_with_ok());
}

#[test]
fn clone_keeps_content_and_snapshot() {
    let state = State::new(editor_of(&["A", "B"]));
    let mut intent = RowIntent::new(state.snapshot(), 1);
    intent.edit_name("Bee".to_string());
    intent.edit_segment_time("3".to_string());
    intent.request(SelectionGesture::Range);
    let copy = intent.clone();
    assert!(copy.same(&intent));
    assert_eq!(copy.index(), 1);
    assert_eq!(copy.pending_name().as_deref(), Some("Bee"));
    assert_eq!(copy.pending_segment_time().as_deref(), Some("3"));
    assert_eq!(copy.selection_gesture(), Some(SelectionGesture::Range));
    assert!(Rc::ptr_eq(copy.snapshot(), intent.snapshot()));
    intent.request(SelectionGesture::Only);
    assert_eq!(copy.selection_gesture(), Some(SelectionGesture::Range));
}

#[test]
fn snapshot_outlives_the_pass_that_replaces_it() {
    let mut state = State::new(editor_of(&["A", "B"]));
    let before = state.snapshot();
    let mut intents = state.rows();
    intents[0].edit_name("Ay".to_string());
    assert!(state.reconcile(&mut intents));
    let after = state.snapshot();
    assert!(!Rc::ptr_eq(&before, &after));
    assert_eq!(before.segment(0).name, "A");
    assert_eq!(before.version(), 0);
    assert_eq!(after.segment(0).name, "Ay");
    assert_eq!(after.version(), 1);
}

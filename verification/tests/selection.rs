use livesplit_core::{Run, RunEditor, Segment};
use segment_table::selection::{classify, Modifiers, SelectionGesture, SelectionState};
use segment_table::table::State;

fn table_of(rows: usize) -> State {
    let mut run = Run::new();
    for row in 0..rows {
        run.push_segment(Segment::new(format!("Segment {}", row)));
    }
    State::new(RunEditor::new(run).unwrap())
}

fn pass(state: &mut State, gestures: &[(usize, SelectionGesture)]) -> Vec<SelectionState> {
    let mut intents = state.rows();
    for (row, gesture) in gestures {
        intents[*row].request(*gesture);
    }
    state.reconcile(&mut intents);
    let snapshot = state.snapshot();
    (0..snapshot.len()).map(|row| snapshot.selection(row)).collect()
}

const U: SelectionState = SelectionState::Unselected;
const S: SelectionState = SelectionState::Selected;
const A: SelectionState = SelectionState::Active;

#[test]
fn classify_unselected_row() {
    let state = SelectionState::Unselected;
    assert_eq!(
        classify(state, Modifiers { shift: false, ctrl: false }),
        Some(SelectionGesture::Only)
    );
    assert_eq!(
        classify(state, Modifiers { shift: false, ctrl: true }),
        Some(SelectionGesture::Additionally)
    );
    assert_eq!(
        classify(state, Modifiers { shift: true, ctrl: false }),
        Some(SelectionGesture::Range)
    );
    assert_eq!(
        classify(state, Modifiers { shift: true, ctrl: true }),
        Some(SelectionGesture::Range)
    );
}

#[test]
fn classify_selected_row() {
    for state in [SelectionState::Selected, SelectionState::Active] {
        assert_eq!(classify(state, Modifiers { shift: false, ctrl: false }), None);
        assert_eq!(classify(state, Modifiers { shift: true, ctrl: false }), None);
        assert_eq!(
            classify(state, Modifiers { shift: false, ctrl: true }),
            Some(SelectionGesture::Unselect)
        );
        assert_eq!(
            classify(state, Modifiers { shift: true, ctrl: true }),
            Some(SelectionGesture::Unselect)
        );
    }
}

#[test]
fn selected_or_active() {
    assert!(!SelectionState::Unselected.is_selected_or_active());
    assert!(SelectionState::Selected.is_selected_or_active());
    assert!(SelectionState::Active.is_selected_or_active());
}

#[test]
fn additionally_keeps_the_old_active_row_selected() {
    let mut state = table_of(4);
    assert_eq!(pass(&mut state, &[(2, SelectionGesture::Additionally)]), vec![S, U, A, U]);
    assert_eq!(pass(&mut state, &[(0, SelectionGesture::Additionally)]), vec![A, U, S, U]);
}

#[test]
fn range_downwards_fills_the_stretch() {
    let mut state = table_of(6);
    assert_eq!(pass(&mut state, &[(1, SelectionGesture::Only)]), vec![U, A, U, U, U, U]);
    assert_eq!(pass(&mut state, &[(4, SelectionGesture::Range)]), vec![U, S, S, S, A, U]);
}

#[test]
fn range_upwards_fills_the_stretch() {
    let mut state = table_of(6);
    assert_eq!(pass(&mut state, &[(4, SelectionGesture::Only)]), vec![U, U, U, U, A, U]);
    assert_eq!(pass(&mut state, &[(1, SelectionGesture::Range)]), vec![U, A, S, S, S, U]);
}

#[test]
fn range_extends_and_does_not_replace() {
    let mut state = table_of(6);
    assert_eq!(
        pass(
            &mut state,
            &[(0, SelectionGesture::Only), (5, SelectionGesture::Additionally)]
        ),
        vec![S, U, U, U, U, A]
    );
    assert_eq!(pass(&mut state, &[(3, SelectionGesture::Range)]), vec![S, U, U, A, S, S]);
}

#[test]
fn range_on_the_active_row_changes_nothing() {
    let mut state = table_of(3);
    assert_eq!(pass(&mut state, &[(1, SelectionGesture::Only)]), vec![U, A, U]);
    assert_eq!(pass(&mut state, &[(1, SelectionGesture::Range)]), vec![U, A, U]);
}

#[test]
fn unselect_a_selected_row() {
    let mut state = table_of(4);
    assert_eq!(
        pass(
            &mut state,
            &[(1, SelectionGesture::Only), (3, SelectionGesture::Additionally)]
        ),
        vec![U, S, U, A]
    );
    assert_eq!(pass(&mut state, &[(1, SelectionGesture::Unselect)]), vec![U, U, U, A]);
}

#[test]
fn unselect_the_active_row_activates_the_one_selected_before() {
    let mut state = table_of(4);
    assert_eq!(
        pass(
            &mut state,
            &[
                (0, SelectionGesture::Only),
                (2, SelectionGesture::Additionally),
                (3, SelectionGesture::Additionally)
            ]
        ),
        vec![S, U, S, A]
    );
    assert_eq!(pass(&mut state, &[(3, SelectionGesture::Unselect)]), vec![S, U, A, U]);
}

#[test]
fn unselect_the_only_selected_row_keeps_it() {
    let mut state = table_of(3);
    assert_eq!(pass(&mut state, &[(1, SelectionGesture::Only)]), vec![U, A, U]);
    assert_eq!(pass(&mut state, &[(1, SelectionGesture::Unselect)]), vec![U, A, U]);
    assert_eq!(state.snapshot().version(), 2);
}

#[test]
fn unselect_a_row_that_is_not_selected_changes_nothing() {
    let mut state = table_of(3);
    assert_eq!(pass(&mut state, &[(2, SelectionGesture::Unselect)]), vec![A, U, U]);
}

#[test]
fn last_row_that_only_unselects_does_not_become_active() {
    let mut state = table_of(4);
    assert_eq!(
        pass(
            &mut state,
            &[(1, SelectionGesture::Only), (3, SelectionGesture::Additionally)]
        ),
        vec![U, S, U, A]
    );
    assert_eq!(
        pass(
            &mut state,
            &[(0, SelectionGesture::Additionally), (3, SelectionGesture::Unselect)]
        ),
        vec![A, S, U, U]
    );
}

#[test]
fn exactly_one_row_is_active_after_every_pass() {
    let mut state = table_of(5);
    let passes: Vec<Vec<(usize, SelectionGesture)>> = vec![
        vec![(4, SelectionGesture::Range)],
        vec![(2, SelectionGesture::Unselect), (4, SelectionGesture::Unselect)],
        vec![(0, SelectionGesture::Unselect), (1, SelectionGesture::Unselect)],
        vec![(3, SelectionGesture::Unselect)],
        vec![(0, SelectionGesture::Additionally), (2, SelectionGesture::Range)],
    ];
    for gestures in passes {
        let shown = pass(&mut state, &gestures);
        assert_eq!(shown.iter().filter(|state| **state == A).count(), 1);
        let active = state.snapshot().active_index().unwrap();
        assert_eq!(shown[active], A);
    }
}

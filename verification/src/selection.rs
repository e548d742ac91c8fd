//! Selection states, selection gestures and the classifier that turns a
//! pointer press into a gesture.

use vstd::prelude::*;

verus! {

/// How a row takes part in the selection.
#[derive(Clone, Copy, Debug, PartialEq, Eq, Structural)]
pub enum SelectionState {
    /// The row is not selected.
    Unselected,
    /// The row is selected, but it is not the row being edited.
    Selected,
    /// The row is selected and is the one that field edits go to.
    Active,
}

impl SelectionState {
    /// Whether the row is part of the selection at all.
    pub open spec fn selected_or_active(self) -> bool {
        self != SelectionState::Unselected
    }

    /// Whether the row is part of the selection at all.
    #[verifier::when_used_as_spec(selected_or_active)]
    pub fn is_selected_or_active(self) -> (b: bool)
        ensures
            b == self.selected_or_active(),
    {
        match self {
            SelectionState::Unselected => false,
            SelectionState::Selected => true,
            SelectionState::Active => true,
        }
    }
}

/// What a pointer press asks the selection to do with the pressed row.
#[derive(Clone, Copy, Debug, PartialEq, Eq, Structural)]
pub enum SelectionGesture {
    /// Select the row and nothing else.
    Only,
    /// Add the row to the selection and make it the active row.
    Additionally,
    /// Select everything from the active row to the row.
    Range,
    /// Take the row out of the selection.
    Unselect,
}

/// The modifier keys held while the pointer was pressed.
#[derive(Clone, Copy, Debug, PartialEq, Eq, Structural)]
pub struct Modifiers {
    /// Shift is held.
    pub shift: bool,
    /// Ctrl (Cmd on a Mac) is held.
    pub ctrl: bool,
}

/// The gesture that a pointer press on a row in `state` stands for.
///
/// On a row outside the selection shift wins over ctrl. On a row inside the
/// selection only ctrl means anything: a plain press leaves the selection
/// alone, so that a drag can start from a selected row.
pub open spec fn classified(state: SelectionState, mods: Modifiers) -> Option<SelectionGesture> {
    if state == SelectionState::Unselected {
        if mods.shift {
            Some(SelectionGesture::Range)
        } else if mods.ctrl {
            Some(SelectionGesture::Additionally)
        } else {
            Some(SelectionGesture::Only)
        }
    } else if mods.ctrl {
        Some(SelectionGesture::Unselect)
    } else {
        None
    }
}

/// Classifies a pointer press on a row whose selection state is `state`.
pub fn classify(state: SelectionState, mods: Modifiers) -> (gesture: Option<SelectionGesture>)
    ensures
        gesture == classified(state, mods),
{
    if !state.is_selected_or_active() {
        if mods.shift {
            Some(SelectionGesture::Range)
        } else if mods.ctrl {
            Some(SelectionGesture::Additionally)
        } else {
            Some(SelectionGesture::Only)
        }
    } else if mods.ctrl {
        Some(SelectionGesture::Unselect)
    } else {
        None
    }
}

/// The selection as the run editor keeps it: the selected rows in the order in
/// which they were selected, the active row last.
pub type SelectionOrder = Seq<usize>;

/// A selection is sound for a table of `len` rows when it is not empty and
/// names only rows of the table.
pub open spec fn order_in_bounds(order: SelectionOrder, len: nat) -> bool {
    &&& order.len() > 0
    &&& forall|k: int| 0 <= k < order.len() ==> (#[trigger] order[k]) < len
}

/// The selection state that `order` gives to `row`.
pub open spec fn state_in(order: SelectionOrder, row: usize) -> SelectionState {
    if order.len() > 0 && order.last() == row {
        SelectionState::Active
    } else if order.contains(row) {
        SelectionState::Selected
    } else {
        SelectionState::Unselected
    }
}

/// The selection that holds `row` alone.
pub open spec fn only(row: usize) -> SelectionOrder {
    seq![row]
}

/// The test that a row is not `row`.
pub open spec fn other_than(row: usize) -> spec_fn(usize) -> bool {
    |k: usize| k != row
}

/// The test that a row is not in `order`.
pub open spec fn not_in(order: SelectionOrder) -> spec_fn(usize) -> bool {
    |k: usize| !order.contains(k)
}

/// `order` without `row`, be the rest empty or not.
pub open spec fn rest(order: SelectionOrder, row: usize) -> SelectionOrder {
    order.filter(other_than(row))
}

/// `order` with `row` moved, or added, to the end.
pub open spec fn additionally(order: SelectionOrder, row: usize) -> SelectionOrder {
    rest(order, row).push(row)
}

/// The rows strictly between `from` and `to`, in ascending order.
pub open spec fn between(from: usize, to: usize) -> SelectionOrder {
    let low = if from < to {
        from
    } else {
        to
    };
    let high = if from < to {
        to
    } else {
        from
    };
    if low + 1 < high {
        Seq::new((high - low - 1) as nat, |j: int| (low + 1 + j) as usize)
    } else {
        Seq::empty()
    }
}

/// The rows strictly between the active row of `order` and `row` that are
/// not in `order`, in ascending order.
pub open spec fn missing(order: SelectionOrder, row: usize) -> SelectionOrder {
    between(order.last(), row).filter(not_in(order))
}

/// `order` extended from its active row through `row`: the rows between the
/// two that were not selected yet join in ascending order, then `row` becomes
/// the active row.
pub open spec fn through(order: SelectionOrder, row: usize) -> SelectionOrder {
    additionally(order + missing(order, row), row)
}

/// `order` without `row`, unless `row` is all that is selected.
pub open spec fn without(order: SelectionOrder, row: usize) -> SelectionOrder {
    if rest(order, row).len() == 0 {
        only(row)
    } else {
        rest(order, row)
    }
}

/// What `gesture` on `row` makes of `order`.
pub open spec fn gestured(order: SelectionOrder, gesture: SelectionGesture, row: usize) -> SelectionOrder {
    match gesture {
        SelectionGesture::Only => only(row),
        SelectionGesture::Additionally => additionally(order, row),
        SelectionGesture::Range => through(order, row),
        SelectionGesture::Unselect => without(order, row),
    }
}

/// A row is in `order` without `row` exactly if it is in `order` and is not
/// `row`.
pub proof fn lemma_rest_contains(order: SelectionOrder, row: usize, other: usize)
    ensures
        rest(order, row).contains(other) <==> order.contains(other) && other != row,
{
    let keep = other_than(row);
    let kept = rest(order, row);
    if kept.contains(other) {
        order.lemma_filter_contains_rev(keep, other);
        let at = choose|at: int| 0 <= at < kept.len() && kept[at] == other;
        order.lemma_filter_pred(keep, at);
    }
    if order.contains(other) && other != row {
        let at = choose|at: int| 0 <= at < order.len() && order[at] == other;
        order.lemma_filter_contains(keep, at);
    }
}

/// Selecting a row alone makes it the active row and leaves every other row
/// unselected.
pub proof fn lemma_only(row: usize, other: usize)
    ensures
        state_in(only(row), row) == SelectionState::Active,
        other != row ==> state_in(only(row), other) == SelectionState::Unselected,
{
    assert(only(row)[0] == row);
    if other != row && only(row).contains(other) {
        let at = choose|at: int| 0 <= at < only(row).len() && only(row)[at] == other;
    }
}

/// Selecting a row additionally makes it the active row. The row that was
/// active stays selected, and every other row keeps its state.
pub proof fn lemma_additionally(order: SelectionOrder, row: usize, other: usize)
    ensures
        state_in(additionally(order, row), row) == SelectionState::Active,
        other != row ==> state_in(additionally(order, row), other) == if state_in(order, other)
            == SelectionState::Active {
            SelectionState::Selected
        } else {
            state_in(order, other)
        },
{
    let kept = rest(order, row);
    if other != row {
        lemma_rest_contains(order, row, other);
        vstd::seq_lib::lemma_seq_contains_after_push(kept, row, other);
        if order.len() > 0 && order.last() == other {
            assert(order[order.len() - 1] == other);
        }
    }
}

/// A row lies strictly between two rows exactly if `between` lists it.
pub proof fn lemma_between_contains(from: usize, to: usize, other: usize)
    ensures
        between(from, to).contains(other) <==> (from < other < to || to < other < from),
{
    let low = if from < to {
        from
    } else {
        to
    };
    let rows = between(from, to);
    if rows.contains(other) {
        let at = choose|at: int| 0 <= at < rows.len() && rows[at] == other;
        assert(rows[at] == low + 1 + at);
    }
    if from < other < to || to < other < from {
        assert(rows[other - low - 1] == other);
    }
}

/// A row is among the missing ones exactly if it lies strictly between the
/// active row and `row` and is not selected.
pub proof fn lemma_missing_contains(order: SelectionOrder, row: usize, other: usize)
    ensures
        missing(order, row).contains(other) <==> between(order.last(), row).contains(other)
            && !order.contains(other),
{
    let unseen = not_in(order);
    let stretch = between(order.last(), row);
    let added = missing(order, row);
    if added.contains(other) {
        stretch.lemma_filter_contains_rev(unseen, other);
        let at = choose|at: int| 0 <= at < added.len() && added[at] == other;
        stretch.lemma_filter_pred(unseen, at);
    }
    if stretch.contains(other) && !order.contains(other) {
        let at = choose|at: int| 0 <= at < stretch.len() && stretch[at] == other;
        stretch.lemma_filter_contains(unseen, at);
    }
}

/// Selecting through a row makes it the active row. Every row from the row
/// that was active to the new one is selected afterwards, and every row
/// outside of that stretch keeps its state.
pub proof fn lemma_through(order: SelectionOrder, row: usize, other: usize)
    requires
        order.len() > 0,
    ensures
        state_in(through(order, row), row) == SelectionState::Active,
        other != row ==> state_in(through(order, row), other) == if (order.last() <= other <= row)
            || (row <= other <= order.last()) {
            SelectionState::Selected
        } else {
            state_in(order, other)
        },
{
    let grown = order + missing(order, row);
    if other != row {
        lemma_rest_contains(grown, row, other);
        vstd::seq_lib::lemma_seq_contains_after_push(rest(grown, row), row, other);
        vstd::seq_lib::lemma_seq_concat_contains_all_elements(order, missing(order, row), other);
        lemma_missing_contains(order, row, other);
        lemma_between_contains(order.last(), row, other);
        assert(order[order.len() - 1] == order.last());
    }
}

/// Unselecting a row that is not all that is selected takes it out of the
/// selection. Which rows are selected besides does not change, and unless
/// the row was the active one, no other row changes its state.
pub proof fn lemma_without(order: SelectionOrder, row: usize, other: usize)
    requires
        exists|k: int| 0 <= k < order.len() && order[k] != row,
    ensures
        state_in(without(order, row), row) == SelectionState::Unselected,
        other != row ==> state_in(without(order, row), other).selected_or_active() == state_in(
            order,
            other,
        ).selected_or_active(),
        other != row && order.last() != row ==> state_in(without(order, row), other) == state_in(
            order,
            other,
        ),
{
    let kept = rest(order, row);
    let k = choose|k: int| 0 <= k < order.len() && order[k] != row;
    assert(order.contains(order[k]));
    lemma_rest_contains(order, row, order[k]);
    assert(kept.len() > 0) by {
        let at = choose|at: int| 0 <= at < kept.len() && kept[at] == order[k];
    }
    assert(kept[kept.len() - 1] == kept.last());
    assert(kept.contains(kept.last()));
    lemma_rest_contains(order, row, kept.last());
    lemma_rest_contains(order, row, row);
    lemma_rest_contains(order, row, other);
    assert(order[order.len() - 1] == order.last());
    if order.last() != row {
        reveal(Seq::filter);
        assert(kept == order.drop_last().filter(other_than(row)).push(order.last()));
    }
}

/// Unselecting the row that is all that is selected changes nothing: the
/// row stays the active row.
pub proof fn lemma_without_last_one(order: SelectionOrder, row: usize)
    requires
        forall|k: int| 0 <= k < order.len() ==> order[k] == row,
    ensures
        without(order, row) == only(row),
{
    let kept = rest(order, row);
    if kept.len() > 0 {
        assert(kept.contains(kept[0]));
        lemma_rest_contains(order, row, kept[0]);
        let at = choose|at: int| 0 <= at < order.len() && order[at] == kept[0];
    }
}

/// A sound selection stays sound under every gesture on a row of the table.
pub proof fn lemma_gestured_in_bounds(
    order: SelectionOrder,
    gesture: SelectionGesture,
    row: usize,
    len: nat,
)
    requires
        order_in_bounds(order, len),
        row < len,
    ensures
        order_in_bounds(gestured(order, gesture, row), len),
{
    let after = gestured(order, gesture, row);
    assert forall|k: int| 0 <= k < after.len() implies (#[trigger] after[k]) < len by {
        let other = after[k];
        assert(after.contains(other));
        if other != row {
            match gesture {
                SelectionGesture::Only => {
                    lemma_only(row, other);
                },
                SelectionGesture::Additionally => {
                    lemma_rest_contains(order, row, other);
                    vstd::seq_lib::lemma_seq_contains_after_push(rest(order, row), row, other);
                },
                SelectionGesture::Range => {
                    let grown = order + missing(order, row);
                    lemma_rest_contains(grown, row, other);
                    vstd::seq_lib::lemma_seq_contains_after_push(rest(grown, row), row, other);
                    vstd::seq_lib::lemma_seq_concat_contains_all_elements(
                        order,
                        missing(order, row),
                        other,
                    );
                    lemma_missing_contains(order, row, other);
                    lemma_between_contains(order.last(), row, other);
                    assert(order[order.len() - 1] < len);
                },
                SelectionGesture::Unselect => {
                    lemma_rest_contains(order, row, other);
                },
            }
            if order.contains(other) {
                let at = choose|at: int| 0 <= at < order.len() && order[at] == other;
            }
        }
    }
}

} // verus!

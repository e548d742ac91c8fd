//! The mathematical model of the table: what its rows show and which of
//! them are selected.

use vstd::prelude::*;
use crate::selection::{state_in, SelectionOrder, SelectionState};

verus! {

/// The text in the three time cells of a row.
pub struct RowTimes {
    /// The split time.
    pub split_time: Seq<char>,
    /// The segment time.
    pub segment_time: Seq<char>,
    /// The best segment time.
    pub best_segment_time: Seq<char>,
}

/// The text in the four editable cells of a row.
pub struct RowText {
    /// The name of the segment.
    pub name: Seq<char>,
    /// The three times.
    pub times: RowTimes,
}

impl RowText {
    /// This row under another name.
    pub open spec fn renamed(self, name: Seq<char>) -> RowText {
        RowText { name, ..self }
    }
}

/// The time cells of each row.
pub open spec fn times_of(rows: Seq<RowText>) -> Seq<RowTimes> {
    Seq::new(rows.len(), |j: int| rows[j].times)
}

/// A row as a snapshot shows it: its text and its selection state.
pub struct RowShown {
    /// The text of the cells.
    pub text: RowText,
    /// The selection state.
    pub selection: SelectionState,
}

/// The table that the run editor holds.
pub struct TableModel {
    /// The text of each row, first row first.
    pub rows: Seq<RowText>,
    /// The selected rows in order of selection, the active row last.
    pub order: SelectionOrder,
}

impl TableModel {
    /// What a snapshot of the table shows.
    pub open spec fn shown(self) -> Seq<RowShown> {
        Seq::new(
            self.rows.len(),
            |j: int| RowShown { text: self.rows[j], selection: state_in(self.order, j as usize) },
        )
    }
}

/// `after` has the rows of `before` under the same names.
pub open spec fn names_kept(before: Seq<RowText>, after: Seq<RowText>) -> bool {
    &&& after.len() == before.len()
    &&& forall|j: int| 0 <= j < before.len() ==> (#[trigger] after[j]).name == before[j].name
}

/// `after` has the rows of `before` with the same text in every time cell.
pub open spec fn times_kept(before: Seq<RowText>, after: Seq<RowText>) -> bool {
    times_of(after) == times_of(before)
}

} // verus!

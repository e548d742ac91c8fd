//! Snapshots: the read-only picture of the table that rows and renderers
//! share between two reconciliation passes.

use std::rc::Rc;
use vstd::prelude::*;
use crate::model::{RowShown, RowText, RowTimes};
use crate::selection::SelectionState;

verus! {

/// One row of a snapshot.
#[derive(Debug)]
pub struct SegmentView {
    /// The name of the segment.
    pub name: String,
    /// The split time, as text.
    pub split_time: String,
    /// The segment time, as text.
    pub segment_time: String,
    /// The best segment time, as text.
    pub best_segment_time: String,
    /// Whether the row is selected, and whether it is the active row.
    pub selection: SelectionState,
}

impl View for SegmentView {
    type V = RowShown;

    open spec fn view(&self) -> RowShown {
        RowShown {
            text: RowText {
                name: self.name@,
                times: RowTimes {
                    split_time: self.split_time@,
                    segment_time: self.segment_time@,
                    best_segment_time: self.best_segment_time@,
                },
            },
            selection: self.selection,
        }
    }
}

/// The rows that a vector of segment views shows.
pub open spec fn views(segments: Seq<SegmentView>) -> Seq<RowShown> {
    Seq::new(segments.len(), |j: int| segments[j]@)
}

/// `active` is a row of `rows`, and the only one that is active.
pub open spec fn active_at(rows: Seq<RowShown>, active: int) -> bool {
    &&& 0 <= active < rows.len()
    &&& forall|j: int|
        0 <= j < rows.len() ==> ((#[trigger] rows[j]).selection == SelectionState::Active <==> j
            == active)
}

/// Exactly one row is active, or there is no row at all.
pub open spec fn one_active(rows: Seq<RowShown>) -> bool {
    rows.len() == 0 || exists|active: int| active_at(rows, active)
}

/// The version that follows `version`. Versions wrap around, so that a
/// republished table never keeps the version it had.
pub open spec fn next_version(version: u64) -> u64 {
    if version == u64::MAX {
        0
    } else {
        (version + 1) as u64
    }
}

/// `Rc::clone`: another handle to the same snapshot.
#[verifier::external_body]
pub(crate) fn share(snapshot: &Rc<Snapshot>) -> (shared: Rc<Snapshot>)
    ensures
        shared == *snapshot,
{
    Rc::clone(snapshot)
}

/// An immutable picture of the table. Of its rows exactly one is active.
pub struct Snapshot {
    version: u64,
    segments: Vec<SegmentView>,
}

impl View for Snapshot {
    type V = Seq<RowShown>;

    closed spec fn view(&self) -> Seq<RowShown> {
        views(self.segments@)
    }
}

impl Snapshot {
    #[verifier::type_invariant]
    spec fn sound(&self) -> bool {
        one_active(views(self.segments@))
    }

    /// The version of the table that this snapshot was taken of.
    pub closed spec fn version_of(&self) -> u64 {
        self.version
    }

    /// Wraps freshly rendered rows into the snapshot of the given version.
    pub(crate) fn publish(version: u64, segments: Vec<SegmentView>) -> (snapshot: Snapshot)
        requires
            one_active(views(segments@)),
        ensures
            snapshot@ == views(segments@),
            snapshot.version_of() == version,
    {
        Snapshot { version, segments }
    }

    /// The version of the table that this snapshot was taken of.
    #[verifier::when_used_as_spec(version_of)]
    pub fn version(&self) -> (version: u64)
        ensures
            version == self.version_of(),
    {
        self.version
    }

    /// The version that a snapshot taken after this one gets.
    pub fn following_version(&self) -> (version: u64)
        ensures
            version == next_version(self.version_of()),
            version != self.version_of(),
    {
        if self.version == u64::MAX {
            0
        } else {
            self.version + 1
        }
    }

    /// The number of rows.
    pub fn len(&self) -> (len: usize)
        ensures
            len == self@.len(),
    {
        self.segments.len()
    }

    /// Whether the snapshot has no rows.
    pub fn is_empty(&self) -> (empty: bool)
        ensures
            empty == (self@.len() == 0),
    {
        self.segments.len() == 0
    }

    /// The row at `index`.
    pub fn segment(&self, index: usize) -> (segment: &SegmentView)
        requires
            index < self@.len(),
        ensures
            segment@ == self@[index as int],
    {
        &self.segments[index]
    }

    /// The selection state of the row at `index`.
    pub fn selection(&self, index: usize) -> (state: SelectionState)
        requires
            index < self@.len(),
        ensures
            state == self@[index as int].selection,
    {
        self.segments[index].selection
    }

    /// The active row: the one row that field edits go to. Only a snapshot
    /// without rows has none.
    pub fn active_index(&self) -> (active: Option<usize>)
        ensures
            match active {
                Some(row) => active_at(self@, row as int),
                None => self@.len() == 0,
            },
    {
        proof {
            use_type_invariant(self);
        }
        let mut row: usize = 0;
        while row < self.segments.len()
            invariant
                row <= self.segments.len(),
                one_active(views(self.segments@)),
                forall|j: int|
                    0 <= j < row ==> (#[trigger] views(self.segments@)[j]).selection
                        != SelectionState::Active,
            decreases self.segments.len() - row,
        {
            if self.segments[row].selection == SelectionState::Active {
                proof {
                    let active = choose|active: int| active_at(self@, active);
                    assert(self@[row as int].selection == SelectionState::Active);
                    assert(active == row);
                }
                return Some(row);
            }
            row = row + 1;
        }
        proof {
            if self@.len() > 0 {
                let active = choose|active: int| active_at(self@, active);
                assert(self@[active].selection == SelectionState::Active);
            }
        }
        None
    }
}

} // verus!

//! What the row widget and the window widget of the editor decide by
//! themselves. Drawing and event delivery belong to the user interface
//! toolkit and are not found here.

use vstd::prelude::*;
use crate::intent::{IntentModel, RowIntent};
use crate::selection::{classified, Modifiers, SelectionState};

verus! {

/// How the background of a row is filled.
#[derive(Clone, Copy, Debug, PartialEq, Eq, Structural)]
pub enum RowFill {
    /// The highlight of a selected row.
    Highlight,
    /// The shade of the rows with an even index.
    Even,
    /// The shade of the rows with an odd index.
    Odd,
}

/// The fill of row `index` when its selection state is `selection`: selected
/// rows are highlighted, the others alternate between two shades.
pub open spec fn fill_of(selection: SelectionState, index: usize) -> RowFill {
    if selection.selected_or_active() {
        RowFill::Highlight
    } else if index % 2 == 0 {
        RowFill::Even
    } else {
        RowFill::Odd
    }
}

/// The widget of one row of the table, around the widget that holds the
/// cells of the row.
pub struct SegmentWidget<T> {
    inner: T,
}

impl<T> SegmentWidget<T> {
    /// The widget inside.
    pub closed spec fn inner_of(&self) -> T {
        self.inner
    }

    /// Puts a row widget around `inner`.
    pub fn new(inner: T) -> (widget: Self)
        ensures
            widget.inner_of() == inner,
    {
        Self { inner }
    }

    /// The widget inside.
    pub fn inner(&self) -> (inner: &T)
        ensures
            *inner == self.inner_of(),
    {
        &self.inner
    }

    /// The widget inside, to be changed in place.
    pub fn inner_mut(&mut self) -> (inner: &mut T)
        ensures
            *inner == old(self).inner_of(),
            final(self).inner_of() == *final(inner),
    {
        &mut self.inner
    }

    /// Takes the row widget apart.
    pub fn into_inner(self) -> (inner: T)
        ensures
            inner == self.inner_of(),
    {
        self.inner
    }

    /// Handles a pointer press on the row: the gesture that it stands for is
    /// recorded in `data`. The result tells whether the row asks for the
    /// keyboard focus, which it does when it was not selected.
    pub fn pointer_down(&self, data: &mut RowIntent, mods: Modifiers) -> (focus: bool)
        ensures
            focus == !old(data).shown()@[old(data)@.index as int].selection.selected_or_active(),
            final(data)@ == (IntentModel {
                selection_gesture: match classified(
                    old(data).shown()@[old(data)@.index as int].selection,
                    mods,
                ) {
                    Some(gesture) => Some(gesture),
                    None => old(data)@.selection_gesture,
                },
                ..old(data)@
            }),
            final(data).shown() == old(data).shown(),
    {
        let index = data.index();
        let focus = !data.snapshot().selection(index).is_selected_or_active();
        data.pointer_down(mods);
        focus
    }

    /// Whether the row has to be painted again after its data went from
    /// `old_data` to `data`.
    pub fn needs_paint(&self, old_data: &RowIntent, data: &RowIntent) -> (paint: bool)
        ensures
            paint == !old_data.same_as(data),
    {
        !old_data.same(data)
    }

    /// How the background of the row is to be filled.
    pub fn fill(&self, data: &RowIntent) -> (fill: RowFill)
        ensures
            fill == fill_of(data.shown()@[data@.index as int].selection, data@.index),
    {
        let index = data.index();
        if data.snapshot().selection(index).is_selected_or_active() {
            RowFill::Highlight
        } else if index % 2 == 0 {
            RowFill::Even
        } else {
            RowFill::Odd
        }
    }
}

/// The widget of the run editor window, around the widget tree of the
/// window. It hands everything through.
pub struct RunEditorWidget<T> {
    inner: T,
}

impl<T> RunEditorWidget<T> {
    /// The widget inside.
    pub closed spec fn inner_of(&self) -> T {
        self.inner
    }

    /// Puts a window widget around `inner`.
    pub fn new(inner: T) -> (widget: Self)
        ensures
            widget.inner_of() == inner,
    {
        Self { inner }
    }

    /// The widget inside.
    pub fn inner(&self) -> (inner: &T)
        ensures
            *inner == self.inner_of(),
    {
        &self.inner
    }

    /// The widget inside, to be changed in place.
    pub fn inner_mut(&mut self) -> (inner: &mut T)
        ensures
            *inner == old(self).inner_of(),
            final(self).inner_of() == *final(inner),
    {
        &mut self.inner
    }

    /// Takes the window widget apart.
    pub fn into_inner(self) -> (inner: T)
        ensures
            inner == self.inner_of(),
    {
        self.inner
    }
}

} // verus!

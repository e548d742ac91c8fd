//! Reconciliation of an editable segment table with the run editor of
//! `livesplit-core`.
//!
//! A user interface shows the segments of a run as rows of a table. While a
//! frame is handled, each row collects what the user asked for: new text for
//! a cell, a selection gesture. One reconciliation pass then carries all of it
//! to the run editor, row by row in ascending order, and publishes one fresh
//! snapshot of the table if, and only if, anything was asked for.
//!
//! The run editor itself is not verified here. What this crate takes for
//! granted about it is stated, function by function, in [`engine`]. What a
//! pass hands to it, command by command, is stated in [`command`] and
//! [`reconcile`]. The run editor aborts when its times overflow; [`reach`]
//! says which passes stay clear of that, and
//! [`table::State::try_reconcile`] makes no other.

pub mod command;
pub mod engine;
pub mod icon;
pub mod intent;
pub mod model;
pub mod reach;
pub mod reconcile;
pub mod selection;
pub mod snapshot;
pub mod table;
pub mod validated;
pub mod widget;

//! Interactive editing engine for vector glyph outlines.
//!
//! The crate models an outline as an ordered sequence of contours, each an
//! ordered sequence of points with curve handles.  On top of that sit the
//! atomic outline mutations (move, merge, delete, copy/paste, reverse), an
//! undo history of snapshots bracketed by begin/end modification calls, a
//! command resolver that maps key-plus-modifier chords to abstract commands,
//! and a stack of self-terminating gesture behaviors that turn multi-event
//! mouse input into single undoable edits.

pub mod behaviors;
pub mod bindings_xml;
pub mod command;
pub mod dispatch;
pub mod editor;
pub mod keymap;
pub mod geometry;
pub mod history;
pub mod tools;

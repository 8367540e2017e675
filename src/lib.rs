//! A text buffer with a selection, a highlight, single-step undo and change notification.
//!
//! `model` gives the abstract state that the contracts speak of, `text` the buffer itself,
//! and `lemmas` the laws that hold between its operations.
pub mod error;
pub mod lemmas;
pub mod model;
pub mod text;

//! A small fine-grained reactive engine: value cells that notify observers
//! synchronously on every change, read-only derived views over them, and a
//! closed set of UI components whose rendering is described as data.
pub mod cell;
pub mod derived;
pub mod laws;
pub mod ui;

//! Verified core of a collaborative cookbook: the replicated cookbook state
//! (last-writer-wins registers and a two-phase recipe map), the validation of
//! the forms that edit it, and the decisions the user interface takes.

pub mod time;

pub mod state;
pub mod gui;
pub mod menu;
pub mod demo;

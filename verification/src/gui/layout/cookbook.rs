//! Forms about cookbooks.

pub mod form;

//! Forms about recipes.

pub mod form;

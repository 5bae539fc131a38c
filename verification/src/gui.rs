//! What the user interface decides: form validation, the selected view,
//! and the operations that the forms produce.

pub mod form;
pub mod layout;

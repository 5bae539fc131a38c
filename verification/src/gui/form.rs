//! Behaviour shared by the form fields.

use vstd::prelude::*;

verus! {

/// The error that a text field shows: none until the user has modified the
/// field, then the outcome of validating its value.
pub fn field_error(is_modified: bool, validation: Result<(), &'static str>) -> (r: Result<
    (),
    &'static str,
>)
    ensures
        r == (if is_modified {
            validation
        } else {
            Ok(())
        }),
{
    if is_modified {
        validation
    } else {
        Ok(())
    }
}

} // verus!

//! The form that creates a cookbook.

use vstd::prelude::*;

verus! {

/// The state of the form that creates a cookbook.
#[derive(Clone, Debug, PartialEq)]
pub struct NewCookbookForm {
    pub name: String,
}

/// The message shown when a cookbook has no name.
pub open spec fn missing_name_message() -> Seq<char> {
    "Please enter a name."@
}

/// Checks the name of a new cookbook: it must not be empty.
pub fn validate_name(name: &str) -> (r: Result<(), &'static str>)
    ensures
        r is Ok <==> name@.len() > 0,
        r matches Err(m) ==> m@ == missing_name_message(),
{
    if name.is_empty() {
        Err("Please enter a name.")
    } else {
        Ok(())
    }
}

/// Whether the form may be submitted: its name is valid.
pub fn valid_new_cookbook_form(form: &NewCookbookForm) -> (r: bool)
    ensures
        r == (form.name@.len() > 0),
{
    let is_err = validate_name(form.name.as_str()).is_err();
    !is_err
}

/// The form as it starts: with an empty name.
pub fn new_cookbook_form() -> (r: NewCookbookForm)
    ensures
        r.name@ == Seq::<char>::empty(),
{
    NewCookbookForm { name: String::new() }
}

} // verus!

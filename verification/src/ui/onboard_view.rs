//! Choosing the vault password on the first run.

use vstd::prelude::*;

verus! {

/// The password chosen on the first run: the new password when its
/// repetition matches, or the message shown when it does not.
pub fn save(new_password_value: String, repeat_password_value: String) -> (r: Result<String, &'static str>)
    ensures
        new_password_value@ == repeat_password_value@ ==> r is Ok && r->Ok_0@ == new_password_value@,
        new_password_value@ != repeat_password_value@ ==> r is Err && r->Err_0@ == "The passwords are not the same"@,
{
    if new_password_value == repeat_password_value {
        Ok(new_password_value)
    } else {
        Err("The passwords are not the same")
    }
}

} // verus!

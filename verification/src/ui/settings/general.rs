//! The rules behind the general settings: password length and changing the
//! password.

use vstd::prelude::*;
use crate::db::{spec_change_password, ChangeError, Db};

verus! {

/// `x` is a power of two.
pub open spec fn is_power_of_two(x: u64) -> bool {
    x > 0 && x & ((x - 1) as u64) == 0
}

/// Rounds a password length up to the next power of two.
pub fn round_letter_count(letter_count: usize) -> (r: usize)
    requires
        1 <= letter_count <= usize::MAX / 2 + 1,
    ensures
        is_power_of_two(r as u64),
        r >= letter_count,
        r / 2 < letter_count,
{
    let m: u64 = (letter_count - 1) as u64;
    assert(m < 0x8000_0000_0000_0000u64);
    let n1: u64 = m | (m >> 1u64);
    let n2: u64 = n1 | (n1 >> 2u64);
    let n3: u64 = n2 | (n2 >> 4u64);
    let n4: u64 = n3 | (n3 >> 8u64);
    let n5: u64 = n4 | (n4 >> 16u64);
    let n6: u64 = n5 | (n5 >> 32u64);
    assert(n6 < 0x8000_0000_0000_0000u64 && n6 >= m && (m == 0 || (n6 + 1) / 2 <= m) && n6 <= 2 * m
        && (n6 & ((n6 + 1) as u64)) == 0u64) by (bit_vector)
        requires
            m < 0x8000_0000_0000_0000u64,
            n1 == m | (m >> 1u64),
            n2 == n1 | (n1 >> 2u64),
            n3 == n2 | (n2 >> 4u64),
            n4 == n3 | (n3 >> 8u64),
            n5 == n4 | (n4 >> 16u64),
            n6 == n5 | (n5 >> 32u64),
    ;
    let r: u64 = n6 + 1;
    assert(r > 0 && (r & ((r - 1) as u64)) == 0u64) by (bit_vector)
        requires
            r == n6 + 1,
            (n6 & ((n6 + 1) as u64)) == 0u64,
            n6 < 0x8000_0000_0000_0000u64,
    ;
    assert(r <= usize::MAX) by {
        assert(m <= usize::MAX / 2);
    }
    r as usize
}

/// Why the password was not changed.
#[derive(Debug, Clone, Copy, PartialEq, Eq, Structural)]
pub enum PasswordChangeError {
    /// The new password and its repetition differ.
    Mismatch,
    /// The new password is empty.
    Empty,
    /// The vault refused the change.
    Change(ChangeError),
}

impl PasswordChangeError {
    /// The message shown to the user for this error.
    pub fn message(&self) -> (m: &'static str)
        ensures
            m@ == match *self {
                PasswordChangeError::Mismatch => "New passwords do not match"@,
                PasswordChangeError::Empty => "Empty passwords are not allowed"@,
                PasswordChangeError::Change(ChangeError::WrongPassword()) => "Wrong password provided"@,
                PasswordChangeError::Change(ChangeError::CryptError(e)) => crate::encryption::crypt_error_message(e),
            },
    {
        match self {
            PasswordChangeError::Mismatch => "New passwords do not match",
            PasswordChangeError::Empty => "Empty passwords are not allowed",
            PasswordChangeError::Change(e) => e.message(),
        }
    }
}

/// Changes the vault password from the settings: the new password must be
/// repeated exactly and must not be empty; then the vault changes its key.
pub fn change_password(db: &mut Db, old_password: String, new_password: String, new_password_check: String) -> (r: Result<(), PasswordChangeError>)
    ensures
        new_password@ != new_password_check@ ==> r == Err::<(), PasswordChangeError>(PasswordChangeError::Mismatch) && final(db)@ == old(db)@,
        new_password@ == new_password_check@ && new_password@.len() == 0
            ==> r == Err::<(), PasswordChangeError>(PasswordChangeError::Empty) && final(db)@ == old(db)@,
        new_password@ == new_password_check@ && new_password@.len() > 0 ==> {
            let (c, after) = spec_change_password(old(db)@, old_password@, new_password@);
            &&& final(db)@ == after
            &&& r == match c {
                Ok(()) => Ok::<(), PasswordChangeError>(()),
                Err(e) => Err(PasswordChangeError::Change(e)),
            }
        },
{
    if new_password != new_password_check {
        return Err(PasswordChangeError::Mismatch);
    }
    if new_password.as_str().is_empty() {
        return Err(PasswordChangeError::Empty);
    }
    match db.change_password(old_password, new_password) {
        Ok(()) => Ok(()),
        Err(e) => Err(PasswordChangeError::Change(e)),
    }
}

} // verus!

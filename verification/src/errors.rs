//! The closed set of error values that the vault engine reports.
//!
//! Every fallible operation returns one of these tagged variants, so callers
//! branch on kind rather than on message text. Authentication deliberately
//! reports the single opaque [`VaultError::InvalidCredentials`] value whether
//! the username was unknown or the password wrong, and vault decryption
//! reports the single opaque [`VaultError::Decryption`] value whether the
//! blob was corrupt or the password wrong, so that failures leak nothing.

use vstd::prelude::*;

verus! {

/// The precise reason an input failed validation.
#[derive(Debug, PartialEq, Eq)]
pub enum ValidationError {
    /// The username was empty.
    UsernameEmpty,
    /// The username had fewer than three characters.
    UsernameTooShort,
    /// The username had more than twenty characters.
    UsernameTooLong,
    /// The username held a character outside alphanumerics, `_` and `-`.
    UsernameInvalidChar,
    /// The password had fewer than eight characters.
    PasswordTooShort,
    /// The password was empty.
    PasswordEmpty,
    /// The password was too long to hash (more than `u32::MAX` encoded bytes).
    PasswordTooLong,
    /// The password lacked a lowercase letter.
    PasswordMissingLowercase,
    /// The password lacked an uppercase letter.
    PasswordMissingUppercase,
    /// The password lacked a digit.
    PasswordMissingDigit,
    /// The password lacked a special character.
    PasswordMissingSpecial,
    /// A free-form input was empty.
    InputEmpty,
    /// A free-form input exceeded the allowed length.
    InputTooLong,
    /// A free-form input held a NUL character.
    InputNullChar,
    /// A free-form input held a disallowed control character.
    InputControlChar,
}

/// An error reported by the vault engine.
#[derive(Debug, PartialEq, Eq)]
pub enum VaultError {
    /// Malformed input; carries the exact reason.
    Validation(ValidationError),
    /// Registration found the username already taken.
    DuplicateUser,
    /// Authentication failed; unknown user and wrong password are deliberately
    /// indistinguishable.
    InvalidCredentials,
    /// Too many attempts inside the rate-limiting window; carries how many
    /// minutes remain until the window opens again.
    RateLimited { retry_after_minutes: i64 },
    /// Vault decryption failed; corruption and a wrong password are
    /// deliberately indistinguishable.
    Decryption,
}

} // verus!

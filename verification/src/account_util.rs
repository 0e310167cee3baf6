//! Plain checks on account text fields: a username may not exceed a maximum
//! length, and an email address must contain an at sign.

use vstd::prelude::*;
use vstd::string::StringSliceAdditionalSpecFns;

verus! {

/// Largest accepted username length, in bytes.
pub const MAX_USERNAME_LENGTH: usize = 64;

/// Largest accepted email length, in bytes.
pub const MAX_EMAIL_LENGTH: usize = 128;

/// Checks that a username does not exceed [`MAX_USERNAME_LENGTH`] bytes.
pub fn check_username(username: &str) -> (result: UsernameResult<()>)
    ensures
        match result {
            Ok(_) => username.spec_bytes().len() as usize <= MAX_USERNAME_LENGTH,
            Err(e) => username.spec_bytes().len() as usize > MAX_USERNAME_LENGTH && e
                == (UsernameError::TooLong {
                max_length: MAX_USERNAME_LENGTH,
                length: username.spec_bytes().len() as usize,
            }),
        },
{
    if username.len() > MAX_USERNAME_LENGTH {
        Err(UsernameError::TooLong { max_length: MAX_USERNAME_LENGTH, length: username.len() })
    } else {
        Ok(())
    }
}

pub type UsernameResult<T> = Result<T, UsernameError>;

/// A rejected username.
#[derive(Copy, Clone, Debug, PartialEq, Eq, Structural)]
pub enum UsernameError {
    TooLong { max_length: usize, length: usize },
    ContainsInvalidCharacter(char),
}

/// Checks that an email address contains an at sign.
pub fn check_email(email: &str) -> (result: EmailResult<()>)
    ensures
        match result {
            Ok(_) => exists|i: int| 0 <= i < email@.len() && email@[i] == '@',
            Err(e) => e == EmailError::MissingAt && forall|i: int|
                0 <= i < email@.len() ==> email@[i] != '@',
        },
{
    let characters = crate::text::str_to_chars(email);
    let mut k: usize = 0;
    while k < characters.len()
        invariant
            k <= characters@.len(),
            characters@ == email@,
            forall|i: int| 0 <= i < k ==> email@[i] != '@',
        decreases characters@.len() - k,
    {
        if characters[k] == '@' {
            return Ok(());
        }
        k = k + 1;
    }
    Err(EmailError::MissingAt)
}

pub type EmailResult<T> = Result<T, EmailError>;

/// A rejected email address.
#[derive(Copy, Clone, Debug, PartialEq, Eq, Structural)]
pub enum EmailError {
    MissingAt,
}

} // verus!

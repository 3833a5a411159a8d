//! Account rules around the core: who may sign up, log in, and delete an
//! account.
use crate::text::{ends_with, has_suffix, lower_of, lowercase};
use vstd::prelude::*;

verus! {

/// The mail domain that sign-ups must use.
pub const ALLOWED_DOMAIN: &'static str = "@ku.edu";

/// The operator password that may delete any account.
pub const ADMIN_PASSWORD: &'static str = "1234";

/// Whether an address, already lower-cased, is in the allowed domain.
pub fn in_allowed_domain(lowered: &str) -> (r: bool)
    ensures
        r == has_suffix(lowered@, ALLOWED_DOMAIN@),
{
    ends_with(lowered, ALLOWED_DOMAIN)
}

/// Whether `email` may sign up: its lower-cased form ends with the domain.
pub fn email_allowed(email: &str) -> (r: bool)
    ensures
        r == has_suffix(lower_of(email@), ALLOWED_DOMAIN@),
{
    let lowered = lowercase(email);
    in_allowed_domain(lowered.as_str())
}

/// The stored credentials of an account.
pub struct Credentials {
    pub user_id: i32,
    pub password: String,
}

/// How a login attempt ends.
#[derive(Clone, Copy, Debug, PartialEq, Eq, Structural)]
pub enum LoginOutcome {
    LoggedIn(i32),
    WrongPassword,
    UnknownEmail,
}

/// The outcome of a login with `provided`, given what is stored for the
/// address (nothing when no account has it).
pub fn check_login(stored: &Option<Credentials>, provided: &String) -> (r: LoginOutcome)
    ensures
        r == (match stored {
            None => LoginOutcome::UnknownEmail,
            Some(c) => if c.password@ == provided@ {
                LoginOutcome::LoggedIn(c.user_id)
            } else {
                LoginOutcome::WrongPassword
            },
        }),
{
    match stored {
        None => LoginOutcome::UnknownEmail,
        Some(c) => {
            if c.password == *provided {
                LoginOutcome::LoggedIn(c.user_id)
            } else {
                LoginOutcome::WrongPassword
            }
        },
    }
}

/// Whether `provided` may delete the account whose password is `stored`:
/// the account's own password or the operator password.
pub fn deletion_authorized(provided: &String, stored: &String) -> (r: bool)
    ensures
        r == (provided@ == ADMIN_PASSWORD@ || provided@ == stored@),
{
    *provided == String::from_str(ADMIN_PASSWORD) || *provided == *stored
}

} // verus!

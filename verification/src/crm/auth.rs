//! The rules of a login. The application knows one built-in account.

use vstd::prelude::*;
use crate::text::text_equal;

verus! {

/// The credentials are those of the built-in account.
pub open spec fn login_accepted(username: Seq<char>, password: Seq<char>) -> bool {
    username == "admin"@ && password == "admin123"@
}

/// Tells whether a login with these credentials is accepted.
pub fn accepts_login(username: &str, password: &str) -> (accepted: bool)
    ensures
        accepted == login_accepted(username@, password@),
{
    text_equal(username, "admin") && text_equal(password, "admin123")
}

/// Tells whether `old_password` is the password that a change of password
/// has to name: that of the built-in account.
pub fn accepts_old_password(old_password: &str) -> (accepted: bool)
    ensures
        accepted == (old_password@ == "admin123"@),
{
    text_equal(old_password, "admin123")
}

} // verus!

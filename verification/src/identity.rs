//! The optional global version-control identity step: decide from what
//! was read back and what the user entered whether and how to set the
//! identity.  The step is never fatal.

use vstd::prelude::*;
use vstd::string::*;

verus! {

/// Whether a global identity is already configured: both the name and the
/// e-mail read back nonempty.
pub fn has_full_identity(name: &str, email: &str) -> (r: bool)
    ensures
        r == (name@.len() > 0 && email@.len() > 0),
{
    !name.is_empty() && !email.is_empty()
}

/// The command that sets the global user name.
pub open spec fn name_command_spec(name: Seq<char>) -> Seq<char> {
    "git config --global user.name \""@ + name + "\""@
}

/// The command that sets the global user e-mail.
pub open spec fn email_command_spec(email: Seq<char>) -> Seq<char> {
    "git config --global user.email \""@ + email + "\""@
}

/// The two commands that set the global identity, owed exactly when both
/// entries are nonempty; `None` means the step is skipped.
pub fn identity_commands(name: &str, email: &str) -> (r: Option<(String, String)>)
    ensures
        match r {
            Some(c) => name@.len() > 0 && email@.len() > 0 && c.0@ == name_command_spec(name@)
                && c.1@ == email_command_spec(email@),
            None => name@.len() == 0 || email@.len() == 0,
        },
{
    if !name.is_empty() && !email.is_empty() {
        let mut c0 = "git config --global user.name \"".to_owned();
        c0.append(name);
        c0.append("\"");
        let mut c1 = "git config --global user.email \"".to_owned();
        c1.append(email);
        c1.append("\"");
        Some((c0, c1))
    } else {
        None
    }
}

} // verus!

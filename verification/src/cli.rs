//! The command-line surface: the user's actions, and the validation of a
//! name before it reaches any store.

use vstd::prelude::*;
use vstd::string::StrSliceExecFns;
use vstd::string::StringExecFns;
use crate::errors::{ErrorKind, StrikeError};
use crate::text::lower_of;

verus! {

/// A user action: add a strike, list all strikes, clear them, or probe the
/// backend's health.
#[derive(Clone, Debug)]
pub enum Command {
    Strike { name: String },
    Ls,
    Clear,
    CheckHealth,
}

/// The parsed command line: an optional path to the configuration file,
/// and the action to run.
#[derive(Clone, Debug)]
pub struct Cli {
    pub config_path: Option<String>,
    pub command: Option<Command>,
}

/// Validate a raw name and fold it to lowercase. A name is valid when it
/// has between one and twenty characters; an invalid one is rejected with
/// a validation error before any store is touched.
pub fn parse_username(s: &str) -> (r: Result<String, StrikeError>)
    ensures
        1 <= s@.len() <= 20 ==> (r matches Ok(name) && name@ == lower_of(s@)),
        s@.len() == 0 ==> (r matches Err(e) && e.kind == ErrorKind::Validation && e.message@
            == "Username cannot be empty"@),
        s@.len() > 20 ==> (r matches Err(e) && e.kind == ErrorKind::Validation && e.message@
            == "Username cannot be longer than 20 characters"@),
{
    let n = s.unicode_len();
    if n == 0 {
        Err(StrikeError::validation(String::from_str("Username cannot be empty")))
    } else if n > 20 {
        Err(
            StrikeError::validation(
                String::from_str("Username cannot be longer than 20 characters"),
            ),
        )
    } else {
        Ok(crate::text::to_lowercase(s))
    }
}

} // verus!

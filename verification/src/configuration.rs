//! The settings a client is built from: an optional remote backend, an
//! optional local one, and the fallback used when a configuration names
//! neither. Reading the configuration file itself happens outside the
//! library; the library decides what a read configuration means.

use vstd::prelude::*;
use vstd::string::StringExecFns;

verus! {

/// Where the remote backend lives, and the credential it wants.
#[derive(Debug, Clone)]
pub struct RemoteSettings {
    pub api_key: String,
    pub base_url: String,
}

/// Where the local backend keeps its document.
#[derive(Debug, Clone)]
pub struct LocalSettings {
    pub db_path: String,
}

/// The configuration: at most one of each backend; remote wins when both
/// are given.
#[derive(Debug, Clone)]
pub struct Settings {
    pub remote: Option<RemoteSettings>,
    pub local: Option<LocalSettings>,
}

/// Whether the settings are the fallback for the given home directory: no
/// remote backend, and the local document at its well-known place.
pub open spec fn is_default_settings(s: Settings, home: Seq<char>) -> bool {
    &&& s.remote is None
    &&& s.local matches Some(l) && l.db_path@ == home + "/.strikes/db.json"@
}

impl Settings {
    /// The fallback settings: a local ledger under the home directory.
    pub fn with_home(home: &str) -> (r: Settings)
        ensures
            is_default_settings(r, home@),
    {
        let mut db_path = String::new();
        db_path.append(home);
        db_path.append("/.strikes/db.json");
        Settings { remote: None, local: Some(LocalSettings { db_path }) }
    }
}

/// What a loaded configuration means: one that could not be read, or that
/// names no backend at all, falls back to the local default under the
/// home directory; any other stands as it is.
pub fn get_configuration(parsed: Option<Settings>, home: &str) -> (r: Settings)
    ensures
        parsed is None ==> is_default_settings(r, home@),
        parsed matches Some(s) ==> (if s.remote is None && s.local is None {
            is_default_settings(r, home@)
        } else {
            r == s
        }),
{
    match parsed {
        None => Settings::with_home(home),
        Some(s) => {
            if s.remote.is_none() && s.local.is_none() {
                Settings::with_home(home)
            } else {
                s
            }
        },
    }
}

} // verus!

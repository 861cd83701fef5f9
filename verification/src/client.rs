//! The store interface: what any backend of the ledger promises for each
//! operation, stated over the mapping its ledger holds.

use vstd::prelude::*;
use crate::configuration::Settings;
use crate::errors::StrikeError;
use crate::ledger::{bump, bumped_count, entries_map, names_unique};
use crate::local_client::LocalClient;
use crate::remote_client::RemoteClient;
use crate::tarnished::{sorted_desc, Tarnished};

verus! {

/// A client bound to exactly one backing store. Each operation reads or
/// mutates the mapping `self.ledger()` from names to counts.
///
/// A backend that can fail (one behind a file or a network) reports its
/// failures as errors and leaves the ledger as the contract says; one
/// whose `infallible()` holds never returns an error at all.
pub trait StrikeClient: Sized {
    /// The mapping from names to counts that the client's ledger holds.
    spec fn ledger(&self) -> Map<Seq<char>, u8>;

    /// Whether this backend's operations are beyond failure; a purely
    /// in-memory backend's are.
    spec fn infallible(&self) -> bool;

    /// Add one strike to the named record, creating it with one strike if
    /// it was absent, and return the new count. The name must already be
    /// validated; validation is the caller's duty, done before this call.
    fn add_strike(&mut self, name: &str) -> (r: Result<u8, StrikeError>)
        requires
            old(self).ledger().contains_key(name@) ==> old(self).ledger()[name@] < 255,
        ensures
            r matches Ok(c) ==> final(self).ledger() == bump(old(self).ledger(), name@) && c
                == bumped_count(old(self).ledger(), name@),
            r is Err ==> final(self).ledger() == old(self).ledger() && !old(self).infallible(),
    ;

    /// Every record of the ledger, ranked by strike count, highest first.
    fn get_tarnished(&self) -> (r: Result<Vec<Tarnished>, StrikeError>)
        ensures
            r matches Ok(v) ==> sorted_desc(v@) && names_unique(v@) && entries_map(v@)
                == self.ledger() && (v@.len() == 0 <==> self.ledger() == Map::<
                Seq<char>,
                u8,
            >::empty()),
            r is Err ==> !self.infallible(),
    ;

    /// Remove every record. Clearing an empty ledger succeeds silently.
    fn clear_strikes(&mut self) -> (r: Result<(), StrikeError>)
        ensures
            r is Ok ==> final(self).ledger() == Map::<Seq<char>, u8>::empty(),
            r is Err ==> final(self).ledger() == old(self).ledger() && !old(self).infallible(),
    ;

    /// The liveness probe: succeeds only when the backend answers well.
    fn check_health(&self) -> (r: Result<(), StrikeError>)
        ensures
            r is Err ==> !self.infallible(),
    ;
}

/// The backend the settings select, bound once for the client's lifetime.
pub enum SelectedClient {
    Local(LocalClient),
    Remote(RemoteClient),
}

/// Bind the one backend the settings select: the remote one when remote
/// settings are given, else the local ledger at the configured path,
/// starting from its absent document.
pub fn create_client(settings: &Settings) -> (r: SelectedClient)
    requires
        settings.remote is Some || settings.local is Some,
    ensures
        settings.remote matches Some(rs) ==> (r matches SelectedClient::Remote(c) && c.api_key
            == rs.api_key && c.base_url == rs.base_url),
        settings.remote is None ==> (settings.local matches Some(ls) && r
            matches SelectedClient::Local(c) && c.db_path == ls.db_path && c.ledger() == Map::<
            Seq<char>,
            u8,
        >::empty()),
{
    match &settings.remote {
        Some(rs) => SelectedClient::Remote(
            RemoteClient { api_key: rs.api_key.clone(), base_url: rs.base_url.clone() },
        ),
        None => {
            let ls = settings.local.as_ref().unwrap();
            SelectedClient::Local(LocalClient::new(ls.db_path.clone()))
        },
    }
}

} // verus!

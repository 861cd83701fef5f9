//! The local backend: a ledger persisted as one JSON document.
//!
//! The document itself lives on disk outside the library; a caller reads
//! it, builds a client from its text, runs operations, and writes the
//! text of `to_document` back. A missing document is an empty ledger; a
//! document that does not parse is a serialization error.

use vstd::prelude::*;
use vstd::string::StringExecFns;
use crate::client::StrikeClient;
use crate::codec::{decode_document, encode_document, json_parse};
use crate::errors::{ErrorKind, StrikeError};
use crate::ledger::{bump, bumped_count, Ledger};
use crate::tarnished::Tarnished;
use crate::text::lower_of;

verus! {

/// The client of a file-backed ledger: the path its document lives at,
/// and the records the document held when the client was built.
#[derive(Debug)]
pub struct LocalClient {
    pub db_path: String,
    pub db: Ledger,
}

impl LocalClient {
    /// A client whose document is absent: the empty ledger.
    pub fn new(db_path: String) -> (r: LocalClient)
        ensures
            r.ledger() == Map::<Seq<char>, u8>::empty(),
            r.db_path == db_path,
    {
        LocalClient { db_path, db: Ledger::new() }
    }

    /// A client read from the persisted document. An absent document is an
    /// empty ledger, not an error; a present document that does not parse
    /// as a flat name-to-count object is a serialization error.
    pub fn from_document(db_path: String, doc: Option<&str>) -> (r: Result<
        LocalClient,
        StrikeError,
    >)
        ensures
            doc is None ==> (r matches Ok(c) && c.ledger() == Map::<Seq<char>, u8>::empty()
                && c.db_path == db_path),
            doc matches Some(s) ==> match json_parse(s@) {
                Some(m) => r matches Ok(c) && c.ledger() == m && c.db_path == db_path,
                None => r matches Err(e) && e.kind == ErrorKind::Serialization,
            },
    {
        match doc {
            None => Ok(LocalClient { db_path, db: Ledger::new() }),
            Some(raw) => match decode_document(raw) {
                Some(entries) => Ok(LocalClient { db_path, db: Ledger::from_records(entries) }),
                None => Err(
                    StrikeError::serialization(
                        String::from_str("the strikes database is not a valid strikes document"),
                    ),
                ),
            },
        }
    }

    /// The document that persists the ledger: parsing it back yields
    /// exactly the mapping this client holds.
    pub fn to_document(&self) -> (r: String)
        ensures
            json_parse(r@) == Some(self.ledger()),
    {
        let records = self.db.records();
        encode_document(&records)
    }

    /// The count recorded for a name, if the name has a record.
    pub fn lookup(&self, name: &str) -> (r: Option<u8>)
        ensures
            r == if self.ledger().contains_key(name@) {
                Some(self.ledger()[name@])
            } else {
                None::<u8>
            },
    {
        self.db.lookup(name)
    }

    /// One user action: validate the raw name, fold it to lowercase, and
    /// add one strike to the folded name. An invalid name is rejected with
    /// a validation error before the ledger is touched, and the ledger is
    /// unchanged. `None` comes only in the one case the record cannot count
    /// further: the folded name already holds 255 strikes; the ledger is
    /// then unchanged too.
    pub fn strike(&mut self, raw_name: &str) -> (r: Option<Result<u8, StrikeError>>)
        ensures
            !(1 <= raw_name@.len() <= 20) ==> (r matches Some(Err(e)) && e.kind
                == ErrorKind::Validation && final(self).ledger() == old(self).ledger()),
            1 <= raw_name@.len() <= 20 ==> {
                let folded = lower_of(raw_name@);
                if old(self).ledger().contains_key(folded) && old(self).ledger()[folded] == 255 {
                    r is None && final(self).ledger() == old(self).ledger()
                } else {
                    r matches Some(Ok(c)) && final(self).ledger() == bump(
                        old(self).ledger(),
                        folded,
                    ) && c == bumped_count(old(self).ledger(), folded)
                }
            },
    {
        match crate::cli::parse_username(raw_name) {
            Err(e) => Some(Err(e)),
            Ok(folded) => {
                if let Some(count) = self.db.lookup(folded.as_str()) {
                    if count == 255 {
                        return None;
                    }
                }
                Some(Ok(self.db.increment(folded.as_str())))
            },
        }
    }
}

impl StrikeClient for LocalClient {
    /// The mapping the document held, as mutated since.
    open spec fn ledger(&self) -> Map<Seq<char>, u8> {
        self.db@
    }

    /// A client of an in-memory copy of the document never fails.
    open spec fn infallible(&self) -> bool {
        true
    }

    fn add_strike(&mut self, name: &str) -> (r: Result<u8, StrikeError>) {
        Ok(self.db.increment(name))
    }

    fn get_tarnished(&self) -> (r: Result<Vec<Tarnished>, StrikeError>) {
        let records = self.db.records();
        let ghost unsorted = records@;
        let sorted = Tarnished::sort_desc_by_strike(records);
        proof {
            crate::ledger::lemma_entries_map_permutation(unsorted, sorted@);
        }
        Ok(sorted)
    }

    fn clear_strikes(&mut self) -> (r: Result<(), StrikeError>) {
        self.db.clear();
        Ok(())
    }

    fn check_health(&self) -> (r: Result<(), StrikeError>) {
        Ok(())
    }
}

} // verus!

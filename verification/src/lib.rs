//! A per-person strike counter.
//!
//! The library keeps a ledger of name -> count records. A caller adds one
//! strike to a named counter, lists all counters sorted by count, or clears
//! the whole ledger. The ledger is backed either by a local JSON document
//! or by a remote keyed table; the logic that decides what each operation
//! does is verified here, while the surrounding file and network plumbing
//! stays outside the library.

pub mod cli;
pub mod client;
pub mod codec;
pub mod config;
pub mod configuration;
pub mod errors;
pub mod handlers;
pub mod ledger;
pub mod local_client;
pub mod remote_client;
pub mod seqs;
pub mod strikes_db;
pub mod tarnished;
pub mod text;

use vstd::prelude::*;

verus! {

} // verus!

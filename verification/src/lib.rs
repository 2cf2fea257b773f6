//! A session-oriented record-management service for lexical study records:
//! the wire codec for its line-delimited JSON protocol, the credential
//! verification flow, the referential-integrity maintenance on record
//! creation and removal, and the per-connection command dispatcher.

pub mod account;
pub mod client;
pub mod codec;
pub mod commands;
pub mod dispatch;
pub mod errors;
pub mod jsonio;
pub mod laws;
pub mod maintenance;
pub mod models;
pub mod store;
pub mod text;

use vstd::prelude::*;

verus! {

/// One protocol message: a command or status header together with a payload
/// string that carries its own JSON document.
pub struct Package {
    pub header: String,
    pub payload: String,
}

} // verus!

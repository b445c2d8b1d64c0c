//! Core of a small content-addressed data store with a sequenced event log
//! and a pub/sub notification broker.
//!
//! The storage contracts ([`datastore`], [`eventstore`]) are backend
//! independent: a concrete backend is chosen once, at startup, from the
//! scheme of a connection URL. The notification side channel ([`mq`]) is a
//! single serialized actor that owns the outbound transport.

pub mod datastore;
pub mod eventstore;
pub mod mq;

use vstd::prelude::*;

verus! {

/// Process-level configuration errors.
#[derive(Debug)]
pub enum ReactrixError {
    /// A required environment variable is missing; holds its name.
    Var(String),
    /// The connection URL names a database scheme that no backend serves.
    UnknownDatabase(String),
}

/// The storage backends a connection URL may select.
#[derive(Debug, PartialEq, Eq, Structural, Clone, Copy)]
pub enum BackendKind {
    Postgres,
    Mongo,
}

/// Decides which storage backend a connection URL's scheme selects:
/// `postgres` and `mongodb` are served, any other scheme is refused.
pub fn backend_kind(scheme: &str) -> (r: Result<BackendKind, ReactrixError>)
    ensures
        (scheme@ == "postgres"@) <==> (r matches Ok(k) && k == BackendKind::Postgres),
        (scheme@ == "mongodb"@) <==> (r matches Ok(k) && k == BackendKind::Mongo),
        (scheme@ != "postgres"@ && scheme@ != "mongodb"@) <==> (r matches Err(
            ReactrixError::UnknownDatabase(s),
        ) && s@ == scheme@),
{
    proof {
        reveal_strlit("postgres");
        reveal_strlit("mongodb");
        assert("postgres"@.len() == 8);
        assert("mongodb"@.len() == 7);
    }
    let s = scheme.to_owned();
    if s == "postgres".to_owned() {
        Ok(BackendKind::Postgres)
    } else if s == "mongodb".to_owned() {
        Ok(BackendKind::Mongo)
    } else {
        Err(ReactrixError::UnknownDatabase(s))
    }
}

} // verus!

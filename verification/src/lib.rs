//! An in-memory ledger behind a line protocol.
//!
//! [`ledger::Ledger`] holds the balance of every account and the
//! administrator's secret. A [`session::Session`] is one client's side of
//! the conversation: it reads a line as a [`request::Request`], carries it
//! out on the ledger and says what is to be sent back. Whoever serves the
//! connections shares one ledger among the sessions and hands it to one
//! session at a time.

pub mod decimal;
pub mod fault;
pub mod laws;
pub mod ledger;
pub mod request;
pub mod session;
pub mod text;

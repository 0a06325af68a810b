//! A registry of songs, their owners, the licensees who ask to use them and
//! the licenses that bind a song, its owner and a licensee.
//!
//! The records live in four ordered tables and share one counter of
//! identifiers. Owners and licensees carry lists that point back at their
//! songs and licenses; the tables know nothing of each other, so every
//! command that creates, approves, revokes or deletes keeps those lists in
//! step by hand.
//!
//! - `entity`: the records, the payloads and the errors.
//! - `ledger`: the model, in which every command and query is a function on
//!   four maps and a counter.
//! - `laws`: what is proved of the model.
//! - `codec`: the byte form of the records.
//! - `stable`: the stable structures that hold the bytes.
//! - `registry`: the tables seen as a ledger, record by record.
//! - `links`: the steps that change one list of one record.
//! - `service`: the commands and queries.
//! - `validate`, `text`: what payloads must satisfy, and text matching.
//!
//! No field but a title or a name is constrained. The one limit is the
//! machine's: a table keeps no value longer than 32 bits count, and the
//! counter ends at the largest `u64`. A command that would cross it is not
//! to be called; `service::can_*` test that.

pub mod codec;
pub mod entity;
pub mod laws;
pub mod ledger;
pub mod links;
pub mod registry;
pub mod service;
pub mod stable;
pub mod text;
pub mod validate;

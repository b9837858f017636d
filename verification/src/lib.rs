//! A small replicated log driven by a single-coordinator majority vote.
//!
//! A master numbers the texts submitted to it and proposes each to its
//! workers; a worker votes for every proposal that is newer than the last it
//! voted for; the master records a proposal in its log once a strict majority
//! of the workers has voted for it.

pub mod address_book;
pub mod api;
pub mod buffer;
pub mod config;
pub mod connection;
pub mod error;
pub mod issue;
pub mod logbackend;
pub mod mailbox;
pub mod roles;
pub mod search;
pub mod text;

pub use address_book::AddressBook;
pub use api::CmdType;
pub use config::{Config, LogType};
pub use connection::{Channel, Connection, Ipc};
pub use error::{
    BackendError, ConfigError, DecodeError, GeneralError, PaxosError, TransportError, Violation,
};
pub use issue::{Issue, IssueType};
pub use logbackend::{
    FileLogBackend, HeapLogBackend, LogBackend, LogModel, Queryable, Writable,
};
pub use mailbox::{Datagram, Delivery, Mail, MailBox};
pub use roles::{Master, Worker};

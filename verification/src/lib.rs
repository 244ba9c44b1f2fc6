//! Verified core of an IMAP-style mail access library.
//!
//! The crate models both roles of the protocol: the authority side
//! (mailbox store, command dispatch, search evaluation, literal
//! framing, session lifecycle) and the initiator side (a typed client
//! whose read-only and read-write capabilities are separated at the
//! type level).  All state transitions and response computations are
//! specified by contracts and proved; the unverified edges (sockets,
//! TLS, terminal output) live outside this crate and call into it
//! with plain values.

pub mod client;
pub mod config;
pub mod date;
pub mod dispatch;
pub mod error;
pub mod flag;
pub mod folder;
pub mod laws;
pub mod literal;
pub mod mailbox;
pub mod parser;
pub mod reply;
pub mod search;
pub mod seqs;
pub mod session;
pub mod text;
pub mod uidset;

pub use client::{ProtonClient, ReadOnly, ReadWrite};
pub use config::ImapConfig;
pub use date::Date;
pub use error::Error;
pub use dispatch::{ConnState, Request};
pub use flag::Flag;
pub use folder::Folder;
pub use mailbox::{MailFolder, Mailbox, MailboxBuilder, Message, StoreEcho, StoreOp};
pub use reply::{Chunk, DonePhrase, Reply, Status};
pub use search::Pred;
pub use laws::has_uid;
pub use session::{LineOutcome, SessionEvent, SessionPhase};
pub use uidset::{UidBound, UidEntry};
pub use text::truncate;

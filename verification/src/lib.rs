//! Secondary indices over a key-value store whose entries expire one by one.
//!
//! The store evicts each key on its own, so an index set may name a key that
//! is gone. This library holds the rules that keep index sets and metadata in
//! step with the primary entries: the key layout, the clean operation, the
//! indexed write, the reads and removals by index, and the groomers that run
//! when a key has gone or on a sweep.
//!
//! No operation touches the store. Each is a state machine that names the
//! command to send and takes the reply ([`action`]); whoever holds the store
//! runs the loop. What the operations make of a store is stated, and proved,
//! over a model of the store ([`model`]); the laws are in [`laws`],
//! [`clean_law`], [`set_law`], [`get_law`], [`rem_law`], [`groom_law`],
//! [`sweep_law`] and [`tidy_law`].
pub mod action;
pub mod clean;
pub mod clean_law;
pub mod command;
pub mod decimal;
pub mod error;
pub mod get;
pub mod get_law;
pub mod groom;
pub mod groom_law;
pub mod init;
pub mod laws;
pub mod layout;
pub mod model;
pub mod periodic;
pub mod rem;
pub mod rem_by_index;
pub mod rem_law;
pub mod reply;
pub mod sequences;
pub mod set;
pub mod set_law;
pub mod sweep_law;
pub mod targeted;
pub mod tidy_law;

pub use action::Action;
pub use clean::CleanKey;
pub use command::Command;
pub use error::EngineError;
pub use get::Get;
pub use groom::EventGroom;
pub use init::Init;
pub use periodic::{GroomIndex, PeriodicGroom};
pub use rem::Remove;
pub use rem_by_index::RemoveByIndex;
pub use reply::Reply;
pub use set::SetIndexed;
pub use targeted::TargetedGroom;

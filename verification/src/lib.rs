//! An embeddable durability engine: an in-memory value is kept recoverable
//! through a snapshot file plus an append-only journal of the mutations
//! applied since that snapshot.
//!
//! The engine touches no file system. Every operation is made of steps that
//! compute the bytes and the file operations to carry out, and that take the
//! outcome of those operations as a plain value. The whole operations run
//! these steps against a directory held in memory.

pub mod builder;
pub mod data;
pub mod directory;
pub mod durability;
pub mod error;
pub mod journal;
pub mod options;
pub mod recovery;
pub mod registry;
pub mod store;

pub use crate::builder::Builder;
pub use crate::data::{Mutation, Survivable};
pub use crate::directory::{Directory, FileOp, Presence};
pub use crate::error::{ignore_eof, Error};
pub use crate::options::Options;
pub use crate::store::Survive;

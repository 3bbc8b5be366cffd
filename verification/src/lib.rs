//! A stable, host-unique 128-bit identifier, read from the identity store
//! that the operating system maintains.
//!
//! The library holds the rules: which stores a platform family has and in
//! what order they are tried, when a store's answer counts, how the raw text
//! becomes sixteen bytes, and how those bytes are written out again. It opens
//! no file and makes no system call: the caller hands in the function that
//! reads a store, and the library decides what to read and what to make of
//! the answers.

pub mod chain;
pub mod codec;
pub mod error;
pub mod id;
pub mod source;
pub mod text;
pub mod unix;

pub use chain::{Chain, Step};
pub use error::{AccessError, Error};
pub use id::MachineId;
pub use source::{Location, Outcome, Platform, Source};
pub use unix::{host_uuid, sysctl, KernelReply};

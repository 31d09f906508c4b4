//! A memory server without its wires: an append-only log of timestamped
//! notes, and the dispatcher that serves it to a peer as two tools,
//! `add_memory` and `get_memories`.
//!
//! Nothing here reads a clock, a file or a stream. The instant of a call
//! is an argument, and the log is a text. A host takes requests from the
//! peer, hands them to the `Dispatcher`, and keeps the log where it likes.

pub mod arguments;
pub mod calendar;
pub mod catalog;
pub mod dispatcher;
pub mod outcome;
pub mod store;
pub mod text;
pub mod timestamp;

pub use crate::arguments::{ArgumentValue, Arguments};
pub use crate::catalog::ToolDescriptor;
pub use crate::dispatcher::{Dispatcher, ToolError};
pub use crate::store::{get_memories, save_memory, MemoryStore, StoreError};
pub use crate::timestamp::format_timestamp;

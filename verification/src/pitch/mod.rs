//! A protocol whose messages are either about connections or on them.
pub mod conn_table;
pub mod interface;
pub mod message;

pub use crate::id::{Id, LinkId};
pub use interface::{Interface, DEFAULT_MAX_CONNS};
pub use message::{ControlMessage, Message, Nak};

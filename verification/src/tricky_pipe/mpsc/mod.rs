//! Multi-producer, single-consumer channels.
pub mod channel_core;
pub mod concurrent;
pub mod elements;
pub mod erased;
pub mod error;
pub mod laws;
pub mod pipe;
pub mod serialized;
pub mod typed;

pub use elements::Elements;
pub use erased::{ErasedPermit, ErasedSender};
pub use pipe::{PipeView, TrickyPipe};
pub use serialized::{DeserSender, SerPermit, SerReceiver, SerRecvRef};
pub use typed::{Permit, Receiver, Sender};

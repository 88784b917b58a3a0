//! Verified building blocks for a small message protocol.
use vstd::prelude::*;

pub mod codec;
pub mod conn_table;
pub mod connector;
pub mod decode;
pub mod discovery;
pub mod hex;
pub mod id;
pub mod machine;
pub mod message;
pub mod mini_reg;
pub mod pitch;
pub mod plugtail;
pub mod registry;
pub mod req_rsp;
pub mod simple_table;
pub mod slots;
pub mod tricky_pipe;
pub mod waiters;

verus! {

} // verus!

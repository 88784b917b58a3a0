//! Channels between tasks, whose messages may be typed or serialized.
pub mod bidi;
pub mod error;
pub mod frame;
pub mod index;
pub mod mpsc;
pub mod oneshot;
pub mod ring;
pub mod serbox;
pub mod shared_ring;
pub mod spitebuf;
pub mod static_impl;
pub mod tp1;
pub mod tp2;
pub mod tp3;
pub mod typeinfo;

//! The routing core of a peer in a Kademlia-like overlay whose names live in
//! a 512-bit XOR keyspace.
//!
//! The core is a state machine. It takes one input at a time, from the
//! transport or from the user above it, and answers by changing its state
//! and by listing what is to be sent, closed, connected to or told to the
//! user. It does no input or output itself.

pub mod authority;
pub mod bytes;
pub mod cache;
pub mod crypto;
pub mod data;
pub mod direct;
pub mod error;
pub mod event;
pub mod filter;
pub mod hops;
pub mod id;
pub mod laws;
pub mod lifecycle;
pub mod messages;
pub mod names;
pub mod nodes;
pub mod parse;
pub mod peers;
pub mod quorum;
pub mod relay;
pub mod requests;
pub mod routing;
pub mod rules;
pub mod sending;
pub mod step;
pub mod table;
pub mod utils;
pub mod wire;

pub use crate::parse::decode;
pub use crate::routing::Core;
pub use crate::utils::{bucket_index_range_confidence, calculate_relocated_name, get_debug_id};
pub use crate::wire::encode;

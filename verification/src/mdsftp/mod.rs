pub mod channel_state;
pub mod connection_state;
pub mod data;
pub mod frame;
pub mod message;
pub mod packet_type;
pub mod pool_state;
pub mod wire;

use vstd::prelude::*;

verus! {

/// The largest chunk a node stores, in bytes.
pub const MAX_CHUNK_SIZE: u64 = 16777216;

} // verus!

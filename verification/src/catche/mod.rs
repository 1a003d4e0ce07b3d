//! Catche, the protocol by which a cache server tells its clients which
//! entries to drop: the invalidation packet and its wire format.
pub mod wire;

//! What every protocol built on the packet framework provides.
pub mod traits;

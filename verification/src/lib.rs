//! Chain synchronisation core: reconciles the L1 log stream and the L2 block
//! stream of a StarkNet node into one locally held chain view.

pub mod capabilities;
pub mod chain;
pub mod client;
pub mod contracts;
pub mod invariants;
pub mod peers;
pub mod primitives;
pub mod reconcile;
pub mod rotation;
pub mod state_update;
pub mod store;
pub mod streams;
pub mod sync;
pub mod table;

//! Supervisory daemon core: a service registry with a failure-threshold
//! state machine, an ordered bounded event bus, and the pure computations
//! behind the control API, together with the sibling-service libraries
//! (cache, post-quantum key state, knowledge synthesis, entropy mixing).

pub mod bus;
pub mod cache;
pub mod checker;
pub mod daemon;
pub mod entropy;
pub mod events;
pub mod hashing;
pub mod hypnos;
pub mod quantique;
pub mod registry;
pub mod ribosome;
pub mod service;
pub mod text;

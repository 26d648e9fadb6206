//! Profiles describe how a single device interacts with the outside world: they
//! manage its external interfaces and decide where outgoing messages go.
pub mod direct_edge;
pub mod direct_router;
pub mod no_std_router;
pub mod null;

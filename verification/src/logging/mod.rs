//! Logging over the network: the message types for formatted and defmt logs, the
//! accumulation of defmt frames, and the choice of ergot's own log sink.
pub mod defmt_sink;
pub mod defmtlog;
pub mod fmtlog;
pub mod log_v0_4;

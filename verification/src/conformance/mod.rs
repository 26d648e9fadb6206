//! Conformance fixtures: a mock profile that checks what a net stack offers it,
//! and the headers and results that the net stack's conformance cases use.
pub mod net_stack;

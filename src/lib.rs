//! Builds a structure-flow graph of scopes out of a flattened syntax tree of
//! one hardware-description compilation unit.
pub mod structs;
pub mod error;
pub mod context;
pub mod graph;
pub mod processor;

//! A double-buffered population stepped by a caller-supplied update, with the
//! run configuration and frame-control decisions of a gravity simulation.
pub mod buffer;
pub mod config;
pub mod control;

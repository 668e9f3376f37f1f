//! Experiments.
pub mod tcp_connection;

//! Core of a TLS-terminating tunneling proxy.
//!
//! The library holds the verified parts of the proxy: the byte-search
//! utility that locates the frame delimiter, the wire-frame codec for the
//! password-authenticated tunneling protocol, the configuration state with
//! its credential store, and the per-connection dispatch decision.  The
//! surrounding binary does the network and TLS work and consults this
//! library for every parsing and policy question.

pub mod config;
pub mod protocol;
pub mod service;
pub mod trojan;
pub mod utility;

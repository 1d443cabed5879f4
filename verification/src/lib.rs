//! Decision core of a daemon that watches one Solana RPC node against a
//! reference node.
//!
//! The daemon polls both nodes for their current slot, compares the answers and
//! raises an alert when the watched node lags behind or answers slowly. Every
//! peer it talks to is treated as untrusted. The modules below hold what is
//! decided and computed; sending requests, waiting and measuring time belong to
//! the program around the library.
//!
//! - `text`: decimal numbers as text
//! - `error`: the one error type
//! - `json`: JSON documents as plain data
//! - `config`: the daemon's settings
//! - `net`: deadlines and the byte budget for one response body
//! - `retry`: whether a failed call is tried again, and when
//! - `metrics`: the slot request, its reply, and one probe of both nodes
//! - `analysis`: thresholds, flags and the status line

pub mod text;
pub mod error;
pub mod json;
pub mod config;
pub mod net;
pub mod retry;
pub mod metrics;
pub mod analysis;

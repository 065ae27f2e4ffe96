//! Monitoring logic for a Solana validator: software compliance against the
//! foundation's minimum versions, epoch progress, node health and the
//! maintenance advisor, all as verified functions on plain values.

mod text_wrappers;

pub mod text;
pub mod utils;
pub mod json;
pub mod models;
pub mod rpc;
pub mod clock;
pub mod report;
pub mod advisor;
pub mod monitor;
pub mod message;

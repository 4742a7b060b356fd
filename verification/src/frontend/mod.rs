//! What clients see of a node.

pub mod certificates;
pub mod client;
pub mod gateway;
pub mod server;

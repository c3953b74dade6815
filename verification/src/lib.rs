//! Talk to ISDT battery chargers: the wire protocol, verified.

pub mod ble;
pub mod cli;
pub mod client;
pub mod frame;
pub mod link;
pub mod request;
pub mod response;
pub mod session;
pub mod text;
pub mod tokens;
pub mod types;
pub mod window;

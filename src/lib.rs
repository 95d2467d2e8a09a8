//! Bridge between a remote interactive client and agent programs running
//! under pseudo-terminals: the protocol, the session and registry state
//! machines and the decisions of each client connection.

pub mod codec;
pub mod config;
pub mod connection;
pub mod ids;
pub mod manager;
pub mod json;
pub mod protocol;
pub mod pty;
pub mod roundtrip;
pub mod session;
pub mod text;

//! The private socket protocol between gateway and storage engine: frames on
//! a byte stream, the routing of commands, and the client's connection pool.

pub mod client;
pub mod command;
pub mod connection;
pub mod frame;

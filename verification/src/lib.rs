//! LocalEx: peer discovery, verification and file exchange between devices on a local network.
//!
//! The library holds the decisions of the daemon, the IPC framing between daemon and clients,
//! the client user interfaces and the FFI boundary; the network, the disk and the terminal are
//! driven by the code around it.
pub mod bytes;
pub mod peer;
pub mod table;
pub mod assoc;
pub mod event;
pub mod message;
pub mod file;
pub mod protocol;
pub mod ipc;
pub mod util;
pub mod sock;
pub mod ffi;
pub mod config;
pub mod tui;
pub mod agent;
pub mod pairing;
pub mod screen;
pub mod deamon;
pub mod laws;
pub mod store;

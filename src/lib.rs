//! A TCP test client engine: IPv4 address arithmetic, payload encodings,
//! the connection manager's decisions, the receive loop's decisions and the
//! bookkeeping of a port scan. Sockets, tasks and timers live with the caller.

pub mod text;
pub mod address;
pub mod codec;
pub mod message;
pub mod events;
pub mod receiver;
pub mod connection;
pub mod scanner;
pub mod commands;
pub mod records;

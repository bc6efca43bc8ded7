//! A bounded, append-only log sink: the rules by which client payloads are
//! stamped, framed and counted against a hard cap on the log's size.
//!
//! Apart from reading the clock the crate touches nothing outside itself. A
//! server hands it plain values (the bytes it read, the time, the peer's
//! address) and performs what it is told to.

pub mod decimal;
pub mod record;
pub mod budget;
pub mod size;
pub mod clock;
pub mod config;
pub mod console;
pub mod server;

pub use crate::clock::now;
pub use crate::config::parsable_env_var;
pub use crate::size::human_readable_size;

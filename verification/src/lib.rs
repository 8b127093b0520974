//! A small relational database core: the storage engine with its flat-file
//! table format, and the binary protocol spoken between client and server.

pub mod client;
pub mod logger;
pub mod net;
pub mod parse;
pub mod storage;
pub mod webclient;

pub use client::Connection;
pub use client::Error;
pub use net::types;

//! Minos: a modular inline firewall for attack/defense CTFs.
//!
//! This crate holds the firewall's decision logic with its contracts: the
//! packet and verdict vocabulary, the filter pipeline executor, the built-in
//! regex / HTTP filters, the HTTP/1.1 request reader and response writer, the
//! sidecar wire format and venv install steps, the versioned config store and
//! the block log. Sockets, processes, async runtimes and serialisation stay
//! outside.


// Text, numbers and encodings.
pub mod base64;
pub mod decimal;
pub mod text;

// Packets, verdicts and the filter pipeline.
pub mod direction;
pub mod executor;
pub mod filter;
pub mod log_entry;
pub mod packet;
pub mod protocol;
pub mod verdict;

// Built-in filters.
pub mod filter_error;
pub mod http_filter;
pub mod pattern;
pub mod regex_filter;

// The Python sidecar.
pub mod sidecar;
pub mod venv;

// Storage and configuration.
pub mod clock;
pub mod config;
pub mod conformance;
pub mod log_sql;
pub mod memory;
pub mod storage;
pub mod storage_laws;

// The data plane.
pub mod errors;
pub mod http_request;
pub mod proxy;
pub mod wire;

pub use direction::Direction;
pub use errors::ProxyError;
pub use filter::{Filter, FilterInstance};
pub use filter_error::{BuildError, FilterError};
pub use http_filter::{HeaderMatch, HttpConfig, HttpFilter, HttpKind};
pub use log_entry::{LogEntry, LogFilter};
pub use memory::InMemoryStorage;
pub use packet::{Packet, ParsedHttp};
pub use protocol::{NetAddr, ProtocolKind, ProxyMode};
pub use regex_filter::{RegexConfig, RegexFilter, RegexKind};
pub use storage::{Storage, StorageError, VersionMeta};
pub use verdict::{BlockResponse, Verdict};

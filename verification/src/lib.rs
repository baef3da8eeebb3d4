//! Bridge between an opentracker status endpoint and a pull-based metrics
//! collector: the status document is decoded into a snapshot of counters and
//! rendered as exposition text.

pub mod config;
pub mod decoder;
pub mod events;
pub mod exposition;
pub mod pool;
pub mod response;
pub mod snapshot;
pub mod text;
pub mod upstream;

pub use config::Config;
pub use snapshot::{Connections, Everything, Torrents};

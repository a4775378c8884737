//! Read-through metadata cache, backend dispatch and structural comparison
//! for tables and event-stream topics held in heterogeneous data sources.

pub mod adapters;
pub mod cache;
pub mod codec;
pub mod compare;
pub mod connection;
pub mod error;
pub mod fetcher;
pub mod import;
pub mod model;
pub mod registry;
pub mod source;
pub mod store;
pub mod stream_codec;

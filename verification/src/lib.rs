//! Statement-dispatch engine for a JSON-over-HTTPS gateway in front of a
//! Cassandra-protocol cluster.
//!
//! The crate holds the verified core: the JSON value model, the value
//! coercion layer, the paging-state codec, the statement registry, the
//! request validators and the dispatch planner.  The network edges (HTTP
//! listener, database session) live outside and talk to this crate through
//! plain values.

pub mod json;
pub mod text;
pub mod render;
pub mod errors;
pub mod paging;
pub mod coerce;
pub mod common;
pub mod registry;
pub mod queries;
pub mod app_config;
pub mod dispatch;
pub mod execute_statement;
pub mod direct_statement;

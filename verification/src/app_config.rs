//! The process configuration as plain values.  Reading it from the
//! environment happens outside this crate; a missing setting falls back
//! to the type's default.

use vstd::prelude::*;

verus! {

/// The gateway's settings.
#[derive(Debug, Clone)]
pub struct Config {
    pub host: String,
    pub port: i32,
    pub region: String,
    pub rust_log: String,
    pub db_node0: String,
    pub db_node1: String,
    pub db_node2: String,
    pub db_user: String,
    pub db_password: String,
    pub db_dc: String,
    pub parallel_files: usize,
    pub db_parallelism: usize,
    pub payload_max_size: usize,
}

impl Default for Config {
    /// Every string empty, every number zero.
    fn default() -> (r: Config)
        ensures
            r.host@.len() == 0,
            r.port == 0,
            r.region@.len() == 0,
            r.rust_log@.len() == 0,
            r.db_node0@.len() == 0,
            r.db_node1@.len() == 0,
            r.db_node2@.len() == 0,
            r.db_user@.len() == 0,
            r.db_password@.len() == 0,
            r.db_dc@.len() == 0,
            r.parallel_files == 0,
            r.db_parallelism == 0,
            r.payload_max_size == 0,
    {
        Config {
            host: String::new(),
            port: 0,
            region: String::new(),
            rust_log: String::new(),
            db_node0: String::new(),
            db_node1: String::new(),
            db_node2: String::new(),
            db_user: String::new(),
            db_password: String::new(),
            db_dc: String::new(),
            parallel_files: 0,
            db_parallelism: 0,
            payload_max_size: 0,
        }
    }
}

} // verus!

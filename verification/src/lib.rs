//! Partitioning of one oversized game world among a fleet of servers.
//!
//! Every storage file of the world belongs to at most one server (a *shard*).
//! The modules below hold the coordinate arithmetic, the ownership rule, the
//! catalogue of storage files and the plans of the maintenance operations,
//! together with the configuration values that surround them.

pub mod arg_types;
pub mod catalog;
pub mod cmd_combine_optimize;
pub mod cmd_init;
pub mod cmd_reset_world;
pub mod cmd_start_stop;
pub mod cmd_sync;
pub mod config;
pub mod coords;
pub mod operations;
pub mod partition;
pub mod server_jar;
pub mod text;
pub mod utils;

//! The backend of PCW: configs on disk with their metadata, one core process
//! per config, and what its gRPC services decide.
pub mod config;
pub mod configs_manager;
pub mod flat_configs;
pub mod paths;
pub mod server;
pub mod status;
pub mod str_map;
pub mod subprocess_control;
pub mod subprocesses_control;
pub mod text;

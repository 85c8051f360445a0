//! Routing core of an omni-modal inference router.

pub mod config;
pub mod error;
pub mod http_media;
pub mod lifecycle;
pub mod operations;
pub mod process_laws;
pub mod server;
pub mod text;
pub mod worker_pool;

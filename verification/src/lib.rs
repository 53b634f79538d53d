//! The rules of a small control plane for game masters.
//!
//! The service takes HTTP requests that carry a signed token, turns them into console
//! commands of the game's world server, and hands those to a sink: the queue in the
//! database, or the world server itself. This library holds what is decided on the
//! way. Sockets, processes, the environment and the reading of JSON are left to the
//! program around it, which does the work that the library asks for and hands back
//! how it went.
//!
//! - [`service`]: how a request is answered, step by step
//! - [`jws`]: which tokens grant access
//! - [`command`]: which commands may be queued
//! - [`config`]: the configuration, from environment variables
//! - [`mariadb`], [`world`]: the two sinks
//! - [`state`], [`error`], [`json`], [`text`]: what these are made of
//! - [`exchange_laws`], [`token_laws`], [`command_laws`], [`config_laws`],
//!   [`sink_laws`], [`world_laws`], [`json_laws`], [`text_laws`], [`model_laws`],
//!   [`laws`]: what holds of all of it
pub mod command;
pub mod command_laws;
pub mod config;
pub mod config_laws;
pub mod error;
pub mod exchange_laws;
pub mod json;
pub mod json_laws;
pub mod jws;
pub mod laws;
pub mod mariadb;
pub mod model_laws;
pub mod service;
pub mod sink_laws;
pub mod state;
pub mod text;
pub mod text_laws;
pub mod token_laws;
pub mod world;
pub mod world_laws;

pub use crate::config::Config;
pub use crate::config::ConfigError;
pub use crate::config::SinkMode;
pub use crate::error::AppError;
pub use crate::mariadb::MariadbCliSink;
pub use crate::service::handle_request;
pub use crate::state::AppState;
pub use crate::state::Clock;
pub use crate::state::CommandSink;
pub use crate::state::QueueCommand;
pub use crate::state::QueueReceipt;
pub use crate::state::SystemClock;
pub use crate::world::DirectWorldHttpSink;

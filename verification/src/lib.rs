//! Sync engine core of a bidirectional file-synchronisation client: path
//! rules, the reconciler that plans a cycle, the executor that runs the plan
//! step by step against a host, and the commit of the verified-synced set.
//! Around the core stand the parts of the client that compute: the requests
//! to the backend, the settings, and the driver's decisions.

pub mod text;
pub mod paths;
pub mod pathset;
pub mod listing;
pub mod state;
pub mod hasher;
pub mod scanner;
pub mod plan;
pub mod status;
pub mod commit;
pub mod executor;
pub mod laws;
pub mod quiet;
pub mod driver;
pub mod api;
pub mod network;
pub mod config;
pub mod credentials;
pub mod geometry;
pub mod autostart;

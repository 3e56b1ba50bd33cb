//! Verified core of `rlwy`, a small command-line client that watches Railway
//! deployments: the data model of the GraphQL API, the lookups and decisions
//! the commands make on it, and the text handling behind what they print.

pub mod api;
pub mod config;
pub mod context;
pub mod deployments;
pub mod env;
pub mod list;
pub mod login;
pub mod model;
pub mod rollback;
pub mod search;
pub mod semver;
pub mod status;
pub mod text;
pub mod ui;
pub mod upgrade;
pub mod watch;

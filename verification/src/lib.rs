//! Fleet operations toolkit: the verified core.

pub mod text;
pub mod tokens;
pub mod numbers;
pub mod sizes;
pub mod profiles;
pub mod server;
pub mod packages;
pub mod security;
pub mod errors;
pub mod executor;
pub mod cleanup;
pub mod location;
pub mod metrics;
pub mod url;
pub mod notify;
pub mod report;
pub mod health;
pub mod inventory;
pub mod image_update;
pub mod sorting;
pub mod timestamps;
pub mod analyze;
pub mod storage;
pub mod layers;
pub mod docker_size;
pub mod json;
pub mod remote;
pub mod digest;
pub mod cleanup_run;
pub mod webhook;
pub mod control;
pub mod retry;
pub mod size_laws;

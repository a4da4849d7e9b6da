//! The commands.
pub mod agent;
pub mod audit;
pub mod bootstrap;
pub mod export;
pub mod infra;
pub mod model;
pub mod mtls;
pub mod oauth;
pub mod registration;
pub mod self_svc;
pub mod tool;

//! The administration of agents, for agents themselves and for operators.
pub mod bootstrap_listener;
pub mod https;
pub mod service;
pub mod uds;
pub mod uds_client;

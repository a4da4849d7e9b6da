//! A credential proxy for agents: the rules that decide who may call which
//! upstream, what is sent there, and what is recorded of it.
pub mod text;
pub mod json;
pub mod reply;
pub mod secret;
pub mod headers;
pub mod clock;
pub mod calendar;
pub mod audit;
pub mod audit_sink;
pub mod repo;
pub mod token;
pub mod auth_v2;
pub mod auth;
pub mod mtls;
pub mod operational_log_sink;
pub mod registrations;
pub mod proxy;
pub mod admin;
pub mod oauth;
pub mod deprecation;
pub mod config;
pub mod client_pool;
pub mod argon2_helper;
pub mod encoding;
pub mod agent_listener;
pub mod app;
pub mod daemon;
pub mod cli;
mod random;

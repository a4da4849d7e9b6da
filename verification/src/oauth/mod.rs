//! OAuth sessions that the proxy holds for its agents.
pub mod admin;
pub mod jwt;
pub mod refresh;
pub mod sealing;
pub mod session;
pub mod store;

pub use sealing::{SealingKey, SealingKeyError};
pub use session::{OauthSession, OauthSessionError};
pub use store::OauthSessionRepository;

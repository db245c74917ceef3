//! Sign-in with the Duo Universal Prompt, as a web vault drives it.
//!
//! The library builds the redirect to Duo, reads back what the vault submits,
//! and judges the answer of Duo's token endpoint. It performs no request of its
//! own: the configuration is handed to it as an [`Env`], and the token exchange
//! is described by a [`PendingAuth`] and answered by a [`TokenReply`].
pub mod auth_url;
pub mod base64url;
pub mod clock;
pub mod config;
pub mod crypto;
pub mod error;
pub mod exchange;
pub mod json;
pub mod json_text;
pub mod jwt;
pub mod models;
pub mod percent;
pub mod state;
pub mod submission;
pub mod text;

pub use crate::auth_url::generate_auth_url;
pub use crate::config::Env;
pub use crate::error::AppError;
pub use crate::exchange::{
    begin_auth_response, judge_auth_response, verify_auth_response, PendingAuth, Refusal, TokenReply,
};
pub use crate::models::{Device, User};

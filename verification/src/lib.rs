//! Core of a two-process chat backend's real-time event path: decoding of
//! database change notifications into events, the subscriber registry, the
//! fan-out dispatcher with its bounded non-blocking send policy, SSE frame
//! rendering, token claim validation, and the supporting configuration and
//! error types.

pub mod auth;
pub mod backoff;
pub mod channel;
pub mod chat;
pub mod config;
pub mod dispatch;
pub mod errors;
pub mod event;
pub mod fanout;
pub mod frame;
pub mod payload;
pub mod registry;
pub mod session;
pub mod text;

pub use auth::AuthOutput;
pub use auth::TokenClaims;
pub use backoff::next_backoff_ms;
pub use chat::CreateChat;
pub use chat::ListMessages;
pub use config::AuthConfig;
pub use config::Config;
pub use config::DbConfig;
pub use config::FileConfig;
pub use config::ListenConfig;
pub use errors::AppError;
pub use errors::ErrorOutput;
pub use event::ChatType;
pub use event::Event;
pub use registry::Registry;

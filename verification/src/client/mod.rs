//! The browser client's own logic: validating websocket upgrades, following
//! redirects, choosing how to connect, and translating websocket frames.
pub mod error;
pub mod http;
pub mod websocket;
pub mod provider;
pub mod extension;

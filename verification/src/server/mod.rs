//! The server's own logic: which streams it lets through, how it routes an
//! HTTP request, and what it reports.
pub mod ip;
pub mod ip_literal;
pub mod policy;
pub mod route;
pub mod handle;
pub mod stats;
pub mod wispnet;
pub mod keys;

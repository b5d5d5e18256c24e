//! Verified core of an FTP-over-QUIC server: reply framing, command parsing,
//! permissions, authentication decisions and the per-command session logic.
pub mod text;
pub mod reply_code;
pub mod reply;
pub mod commands;
pub mod permission;
pub mod auth;
pub mod session;
pub mod shared;
pub mod handlers;
pub mod connection;
pub mod transfer;

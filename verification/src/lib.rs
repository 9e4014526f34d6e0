//! Verified core of TryCli Studio: the decisions and text building behind
//! the terminal-sandbox server and its browser client.
pub mod client;
pub mod rejection;
pub mod text;
pub mod urls;
pub mod session;
pub mod models;
pub mod embed;
pub mod whitelist;
pub mod projects;
pub mod admin;
pub mod error;
pub mod terminal;
pub mod reaper;

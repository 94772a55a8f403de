//! The direct-API image runtime: sessions and turns, prompts, requests and replies.

pub mod text;
pub mod json;
pub mod skills;
pub mod settings;
pub mod board;
pub mod files;
pub mod codec;
pub mod reply;
pub mod prompt;
pub mod request;
pub mod registry;
pub mod session;
pub mod records;
pub mod turn;
pub mod send;
pub mod start;
pub mod laws;

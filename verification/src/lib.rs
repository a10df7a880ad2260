//! Verified core of the Aether Matrix AI assistant bot.

pub mod command;
pub mod text;
pub mod conversation;
pub mod streaming;
pub mod event;
pub mod ui;
pub mod config;
pub mod mcp;
pub mod muyu;
pub mod admin;
pub mod media;
pub mod persona;
pub mod meme;
pub mod chance;
pub mod ai;

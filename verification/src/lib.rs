//! Message handling, prompt preparation and configuration rules of a Discord chat bot.
pub mod ai;
pub mod chat;
pub mod chat_log;
pub mod commands;
pub mod config;
pub mod dispatch;
pub mod text;

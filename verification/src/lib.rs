//! The verified core of a Discord bot that manages game servers running in
//! tmux sessions: the chat bridge in both directions, the in-game command
//! whitelist, the bot's commands, the backup manager's rules and the
//! configuration checks. Reading files, talking to Discord and starting
//! processes is left to the program that uses this library.
pub mod text;
pub mod chat;
pub mod log;
pub mod bridge;
pub mod commands;
pub mod backup;
pub mod config;

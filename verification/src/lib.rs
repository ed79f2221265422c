pub mod text;
pub mod namemap;
pub mod config;
pub mod error;
pub mod ports;
pub mod yaml;
pub mod docker;
pub mod detect;
pub mod process;
pub mod state;
pub mod terminal;
pub mod worktree;
pub mod server;
pub mod scan;
pub mod agent;
pub mod ws;
pub mod tui;
pub mod display;
pub mod laws;

//! Core of a synchronized lyrics display: LRC / LRCX parsing, line lookup,
//! provider search and ranking, scheduling, and the decisions behind the
//! terminal and HTTP front ends.
pub mod cache;
pub mod config;
pub mod display;
pub mod laws;
pub mod lyrics;
pub mod order;
pub mod player;
pub mod provider;
pub mod scheduler;
pub mod server;
pub mod single;
pub mod table;
pub mod text;
pub mod time;
pub mod tui;

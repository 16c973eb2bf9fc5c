//! What holds of the library as a whole: how results relate to what went in,
//! whatever it was.
pub mod calls;
pub mod config;
pub mod format;
pub mod lyrics;
pub mod macos;
pub mod mpris;
pub mod number;
pub mod provider;
pub mod scheduler;
pub mod server;
pub mod songs;
pub mod stamped;
pub mod text;
pub mod time;
pub mod tui;
pub mod views;

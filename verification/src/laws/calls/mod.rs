//! What calls of the library's functions give back and leave behind.
pub mod front;
pub mod playback;
pub mod players;
pub mod search;
pub mod values;

//! droidlog: the logic of an Android log collector.
//!
//! ```text
//! error -> executor -> adb -> device  --\
//!             \-> source -> parser    ----> process -> commands
//!                     \-> ring, filter  /
//!                          state (owns sessions)
//! ```
//!
//! Every function states what it returns or changes, over mathematical views of the
//! types; what relates several functions is stated by the `law_` proof functions.
//! Running processes and talking to devices is left to the application around it.

pub mod adb;
pub mod clock;
pub mod collect;
pub mod commands;
pub mod crash;
pub mod device;
pub mod error;
pub mod executor;
pub mod export;
pub mod filter;
pub mod parser;
pub mod process;
pub mod ring;
pub mod source;
pub mod state;
pub mod text;
pub mod types;

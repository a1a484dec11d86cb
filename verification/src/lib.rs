//! Verified core of a terminal-session logger.
//!
//! A session runs an interactive shell on a pseudo-terminal, relays its
//! output to the screen and to an append-only log, and inserts a sentinel
//! marker into the log each time the user submits a command, so that the
//! output of the last completed command can later be extracted as context
//! for a chat query. This crate holds the verified model of that engine:
//! the command-boundary detector, the log and its marker bookkeeping, the
//! session state machine, the terminal-mode guard and window-size models,
//! and the context extractor. The unverified binary around it performs the
//! actual pseudo-terminal, signal, file and network work and feeds plain
//! values into these functions.

pub mod boundary;
pub mod cli;
pub mod errors;
pub mod log;
pub mod openai;
pub mod search;
pub mod session;
pub mod term;
pub mod text;

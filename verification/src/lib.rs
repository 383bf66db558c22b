//! Decisions of a command-line filter that turns FIX tag=value messages,
//! one per input line, into JSON Lines.
//!
//! The crate holds everything the filter decides: which sources to read and
//! how, how their bytes become lines, what is written for each line and for
//! each failure, and when the run ends. Reading, printing and the decoding of
//! a single message are left to the caller, who drives a [`session::Session`]:
//! a decoder may panic on a line or write warnings of its own, and nothing in
//! this crate does either.
//!
//! [`transcript`] states what a whole run writes and proves that a session
//! driven to its end has written exactly that.

pub mod config;
pub mod lines;
pub mod report;
pub mod session;
pub mod source;
pub mod transcript;

pub use config::{get_args, Config};
pub use session::{run, Session, Step};
pub use source::SourceKind;

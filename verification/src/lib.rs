//! `body` keeps the header lines of piped input in place and hands the rest
//! of the input to another command (`sort` by default).
//!
//! - `count`: reading the header count (decimal, bounded).
//! - `words`: splitting a command line held in one string into words.
//! - `invocation`: deciding from the arguments what to do.
//! - `header`: reading the header one byte at a time, never past its end.
//! - `help`: the usage text.
//! - `status`: the exit status that reports how the command ended.
pub mod count;
pub mod header;
pub mod words;
pub mod invocation;
pub mod help;
pub mod status;

pub use count::is_whole_number;

//! Verified core of a `head`-like utility.
//!
//! The crate resolves command-line tokens into a validated [`config::Config`],
//! truncates input contents to a line or byte bound, and decides the banner
//! and separator layout when several sources are printed in one run.  All of
//! the logic is specified and proved here; an accompanying binary only opens
//! files, reads bytes, and writes what these functions return.

pub mod args;
pub mod config;
pub mod parse;
pub mod render;
pub mod trunc;

pub use args::get_args;
pub use config::Config;
pub use parse::parse_positive_int;
pub use render::run;
pub use trunc::head_bytes;
pub use trunc::head_lines;

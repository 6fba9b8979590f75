//! The command-line tool: what each subcommand decides and prints.
pub mod listing_laws;
pub mod notice_laws;
pub mod output_laws;
pub mod ps;
pub mod ps_text;
pub mod spill;
pub mod summary;
pub mod watch;
pub mod watch_laws;
pub mod watch_run;
pub mod watch_text;

use vstd::prelude::*;

verus! {

/// What a command prints.
#[derive(Debug)]
pub struct Printed {
    /// Text for standard output.
    pub stdout: String,
    /// Text for standard error.
    pub stderr: String,
}

} // verus!

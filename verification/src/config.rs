//! The user's configuration: where the log files live and which editor
//! opens them.

use vstd::prelude::*;

verus! {

/// Settings the journaling commands run under.  `base_dir` is the
/// directory that holds the daily and monthly log files; `editor` is the
/// shell command used to open a file for editing, if one is configured.
pub struct Config {
    pub base_dir: String,
    pub editor: Option<String>,
}

} // verus!

//! Where the compositor's log goes.
use vstd::prelude::*;

use crate::paths::{join, joined};
use crate::pidfile::{runtime_dir, runtime_directory, text_of};

verus! {

/// Named for the process, so that the compositor's log and the session's sit side by side.
pub const LOG_NAME: &'static str = "wlrix-compositor.log";

/// Where the log lives: below the runtime directory where there is one, which is one user's, else
/// below the directory for temporary files.
pub fn log_path(xdg_runtime_dir: Option<&str>, temp_dir: &str) -> (path: String)
    ensures
        path@ == joined(runtime_directory(text_of(xdg_runtime_dir), temp_dir@), LOG_NAME@),
{
    join(runtime_dir(xdg_runtime_dir, temp_dir).as_str(), LOG_NAME)
}

} // verus!

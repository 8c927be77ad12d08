//! A pidfile, so another process can find this compositor to signal it.
use vstd::prelude::*;

use crate::paths::{absolute, is_absolute, join, joined};
use crate::scan::push_decimal;

verus! {

/// Named for the process, beside its log.
pub const PID_NAME: &'static str = "wlrix-compositor.pid";

/// The runtime directory: `xdg_runtime_dir` where it is set to an absolute path, else the
/// directory for temporary files.
pub open spec fn runtime_directory(xdg_runtime_dir: Option<Seq<char>>, temp_dir: Seq<char>) -> Seq<
    char,
> {
    match xdg_runtime_dir {
        Some(dir) => if absolute(dir) {
            dir
        } else {
            temp_dir
        },
        None => temp_dir,
    }
}

/// What a borrowed text holds, if there is one.
pub open spec fn text_of(text: Option<&str>) -> Option<Seq<char>> {
    match text {
        Some(text) => Some(text@),
        None => None,
    }
}

/// The runtime directory.
pub fn runtime_dir(xdg_runtime_dir: Option<&str>, temp_dir: &str) -> (dir: String)
    ensures
        dir@ == runtime_directory(text_of(xdg_runtime_dir), temp_dir@),
{
    match xdg_runtime_dir {
        Some(dir) if is_absolute(dir) => dir.to_owned(),
        _ => temp_dir.to_owned(),
    }
}

/// Where the pidfile lives.
pub fn path(xdg_runtime_dir: Option<&str>, temp_dir: &str) -> (path: String)
    ensures
        path@ == joined(runtime_directory(text_of(xdg_runtime_dir), temp_dir@), PID_NAME@),
{
    join(runtime_dir(xdg_runtime_dir, temp_dir).as_str(), PID_NAME)
}

/// What the pidfile of a process holds.
pub fn contents(pid: u32) -> (text: String)
    ensures
        text@ == crate::scan::decimal_text(pid as nat),
{
    let mut text = String::new();
    push_decimal(&mut text, pid as u64);
    assert(text@ =~= crate::scan::decimal_text(pid as nat));
    text
}

/// A pidfile that was written: it is to be removed on a clean exit.
pub struct Guard {
    pub path: String,
}

/// The guard of a pidfile, where it was written.
pub fn guard(path: String, written: bool) -> (guard: Option<Guard>)
    ensures
        match guard {
            Some(guard) => written && guard.path == path,
            None => !written,
        },
{
    if written {
        Some(Guard { path })
    } else {
        None
    }
}

/// What is one user's is kept in the runtime directory where one is set from the root on, and in
/// the directory for temporary files otherwise.
pub proof fn the_runtime_directory_is_absolute(set: Option<Seq<char>>, temp_dir: Seq<char>)
    ensures
        set matches Some(dir) ==> (dir.len() > 0 && dir[0] == '/' ==> runtime_directory(
            set,
            temp_dir,
        ) == dir),
        set matches Some(dir) ==> (dir.len() == 0 || dir[0] != '/' ==> runtime_directory(
            set,
            temp_dir,
        ) == temp_dir),
        set is None ==> runtime_directory(set, temp_dir) == temp_dir,
{
}

} // verus!

//! Finding the file that the user means when they press the hotkey.
use vstd::prelude::*;

pub mod child;
pub mod laws;
pub mod linux;
pub mod windows;

use crate::path::{self, FilePath};

verus! {

/// Where a path came from.
#[derive(Debug, Clone, Copy, PartialEq, Eq, Structural)]
pub enum Origin {
    /// The file manager.
    FileManager,
    /// The clipboard.
    Clipboard,
}

/// A file that is selected.
#[derive(Debug, PartialEq)]
pub struct Selection {
    pub path: FilePath,
    pub origin: Origin,
}

impl Selection {
    /// The path `path`, which came from `origin`.
    pub fn new(path: FilePath, origin: Origin) -> (r: Selection)
        ensures
            r.path == path,
            r.origin == origin,
    {
        Selection { path, origin }
    }
}

/// Whether `path` is one to preview: an absolute path that exists. `present` is not
/// asked of any other.
pub fn usable<F: Fn(&FilePath) -> bool>(path: &FilePath, present: F) -> (r: bool)
    requires
        path::absolute(path@) ==> call_requires(present, (path,)),
    ensures
        !path::absolute(path@) ==> !r,
        path::absolute(path@) ==> call_ensures(present, (path,), r),
{
    if path.is_absolute() {
        present(path)
    } else {
        false
    }
}

} // verus!

//! A directory entry as the walk of a tree reports it, and whether it is hidden.

use vstd::prelude::*;
use vstd::string::*;

verus! {

/// A name is hidden when it begins with a dot.
pub open spec fn hidden_name(name: Seq<char>) -> bool {
    name.len() > 0 && name[0] == '.'
}

/// Whether `name` begins with a dot.
pub fn is_hidden_name(name: &str) -> (r: bool)
    ensures
        r == hidden_name(name@),
{
    if name.is_empty() {
        false
    } else {
        name.get_char(0) == '.'
    }
}

/// One entry met while walking a directory tree.
#[derive(Debug, PartialEq, Eq)]
pub struct DirEntry {
    /// The entry's path, the root of the walk included.
    pub path: String,
    /// The last component of the path.
    pub file_name: String,
    /// The entry is a directory.
    pub is_dir: bool,
}

pub trait DirEntryExt {
    /// The entry's file name.
    spec fn name(&self) -> Seq<char>;

    /// Whether the entry is a hidden file or directory.
    fn is_hidden(&self) -> (r: bool)
        ensures
            r == hidden_name(self.name()),
    ;
}

impl DirEntryExt for DirEntry {
    open spec fn name(&self) -> Seq<char> {
        self.file_name@
    }

    fn is_hidden(&self) -> (r: bool) {
        is_hidden_name(self.file_name.as_str())
    }
}

} // verus!

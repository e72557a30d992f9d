//! The stack of directories that the session has visited.

use vstd::prelude::*;

verus! {

/// Directories, the current one on top.
#[derive(Debug)]
pub struct DirectoryStack {
    /// The directories from the top of the stack to its bottom.
    pub dirs: Vec<String>,
}

impl DirectoryStack {
    /// The directory `num` places below the top.
    pub open spec fn spec_from_top(&self, num: nat) -> Option<Seq<char>> {
        if num < self.dirs@.len() {
            Some(self.dirs@[num as int]@)
        } else {
            None
        }
    }

    /// The directory `num` places above the bottom.
    pub open spec fn spec_from_bottom(&self, num: nat) -> Option<Seq<char>> {
        if num < self.dirs@.len() {
            Some(self.dirs@[self.dirs@.len() - 1 - num]@)
        } else {
            None
        }
    }

    /// An empty stack.
    pub fn new() -> (r: DirectoryStack)
        ensures
            r.dirs@.len() == 0,
    {
        DirectoryStack { dirs: Vec::new() }
    }

    /// The directory `num` places below the top of the stack.
    pub fn dir_from_top(&self, num: usize) -> (r: Option<&String>)
        ensures
            r matches Some(dir) ==> self.spec_from_top(num as nat) == Some(dir@),
            r is None ==> self.spec_from_top(num as nat) is None,
    {
        if num < self.dirs.len() {
            Some(&self.dirs[num])
        } else {
            None
        }
    }

    /// The directory `num` places above the bottom of the stack.
    pub fn dir_from_bottom(&self, num: usize) -> (r: Option<&String>)
        ensures
            r matches Some(dir) ==> self.spec_from_bottom(num as nat) == Some(dir@),
            r is None ==> self.spec_from_bottom(num as nat) is None,
    {
        if num < self.dirs.len() {
            Some(&self.dirs[self.dirs.len() - 1 - num])
        } else {
            None
        }
    }
}

} // verus!

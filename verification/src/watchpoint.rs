//! Classification of watchpoint accesses.
//!
//! A watchpoint observes reads and writes of one chosen address.  The kind
//! recorded with each observation says which direction of access it was
//! registered for; the dispatch itself (invoking a caller-supplied callback
//! with the emulated state) lives with the embedder.

use vstd::prelude::*;

verus! {

/// Which accesses of the watched address an observer is interested in.
#[derive(Debug, Clone, Copy, PartialEq, Eq, PartialOrd, Ord, Hash)]
pub enum WatchpointKind {
    Read,
    ReadWrite,
    Write,
}

impl WatchpointKind {
    /// True exactly for the read-only kind.
    pub fn is_read(&self) -> (r: bool)
        ensures
            r == (self is Read),
    {
        matches!(self, WatchpointKind::Read)
    }

    /// True exactly for the write-only kind.
    pub fn is_write(&self) -> (r: bool)
        ensures
            r == (self is Write),
    {
        matches!(self, WatchpointKind::Write)
    }
}

} // verus!

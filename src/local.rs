//! Content delegated to a file of the host.

use vstd::prelude::*;
use crate::attr::{status_attributes, status_metadata, FileStatus, Metadata};

verus! {

/// Content delegated to a file of the host's filesystem.
#[derive(Debug, PartialEq, Eq, Hash)]
pub struct LocalFSFileType {
    pub file_path: String,
}

impl LocalFSFileType {
    pub fn new(pointer: String) -> (r: LocalFSFileType)
        ensures
            r.file_path == pointer,
    {
        LocalFSFileType { file_path: pointer }
    }

    /// Attributes of a delegate file numbered `inode`, from what `stat`
    /// reported of it.
    pub fn attributes_for_status(inode: u64, st: &FileStatus) -> (r: Metadata)
        ensures
            r == status_metadata(inode, *st),
    {
        status_attributes(inode, st)
    }
}

} // verus!

//! Content embedded in the manifest.

use vstd::prelude::*;
use crate::attr::{served_file_attributes, served_file_metadata, HostContext, Metadata};
use crate::backend::{read_window, read_window_of};

verus! {

/// The bytes of embedded content.
pub open spec fn raw_bytes(r: RawFSFileType) -> Seq<u8> {
    vstd::utf8::encode_utf8(r.data@)
}

/// Content held verbatim by the manifest.
#[derive(Debug, PartialEq, Eq, Hash)]
pub struct RawFSFileType {
    pub data: String,
}

impl RawFSFileType {
    pub fn new(pointer: String) -> (r: RawFSFileType)
        ensures
            r.data == pointer,
    {
        RawFSFileType { data: pointer }
    }

    /// Attributes of embedded content: its length in bytes.
    pub fn get_attributes(&self, inode: u64, host: &HostContext) -> (r: Metadata)
        ensures
            r == served_file_metadata(inode, raw_bytes(*self).len() as u64, *host),
    {
        let size = self.data.as_str().as_bytes().len() as u64;
        served_file_attributes(inode, size, host)
    }

    /// Up to `size` bytes of the content at `offset`; none at or past its end.
    pub fn read(&self, offset: u64, size: u32) -> (r: Vec<u8>)
        ensures
            r@ == read_window(raw_bytes(*self), offset as int, size as int),
    {
        read_window_of(self.data.as_str().as_bytes(), offset, size)
    }
}

} // verus!

//! Content fetched from a network resource.

use vstd::prelude::*;
use crate::attr::{served_file_attributes, served_file_metadata, HostContext, Metadata};
use crate::backend::{read_window, read_window_of, FsError};

verus! {

/// A status code that reports success.
pub open spec fn status_is_success(status: u16) -> bool {
    200 <= status < 300
}

/// Content fetched from a network resource.
#[derive(Debug, PartialEq, Eq, Hash)]
pub struct HttpFSFileType {
    pub address: String,
}

impl HttpFSFileType {
    pub fn new(pointer: String) -> (r: HttpFSFileType)
        ensures
            r.address == pointer,
    {
        HttpFSFileType { address: pointer }
    }

    /// Attributes of a resource numbered `inode`, from the length that the
    /// server reported, 0 when it reported none.
    pub fn attributes_for_length(
        inode: u64,         content_length: Option<u64>,
        host: &HostContext,
    ) -> (r: Metadata)
        ensures
            r == served_file_metadata(
                inode,
                match content_length {
                    Some(n) => n,
                    None => 0,
                },
                *host,
            ),
    {
        let size = match content_length {
            Some(n) => n,
            None => 0,
        };
        served_file_attributes(inode, size, host)
    }

    /// Serves a read of `size` bytes at `offset` from the response to a fetch
    /// of the whole resource: an I/O failure unless the status reports
    /// success, else the bytes of the body there, none past its end.
    pub fn read_response(status: u16, body: &[u8], offset: u64, size: u32) -> (r: Result<
        Vec<u8>,
        FsError,
    >)
        ensures
            !status_is_success(status) ==> r == Err::<Vec<u8>, FsError>(FsError::IoError),
            status_is_success(status) ==> r is Ok && r->Ok_0@ == read_window(
                body@,
                offset as int,
                size as int,
            ),
    {
        if 200 <= status && status < 300 {
            Ok(read_window_of(body, offset, size))
        } else {
            Err(FsError::IoError)
        }
    }
}

} // verus!

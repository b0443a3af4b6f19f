//! A read-only filesystem whose tree comes from a manifest: directories are
//! objects, files are `<type>:<pointer>` descriptors. The library builds the
//! tree, numbers its nodes, indexes them and answers the lookup, attribute,
//! read and directory requests of a userspace filesystem bridge.

pub mod attr;
pub mod backend;
pub mod fs;
pub mod http;
pub mod local;
pub mod manifest;
pub mod path;
pub mod raw;
pub mod tree;

pub use attr::{FileKind, FileStatus, HostContext, Metadata, Timestamp};
pub use backend::{AttrPlan, DescriptorError, FSFileType, FsError, ReadPlan};
pub use fs::{DirEntry, InodeIndex, JsonFS};
pub use http::HttpFSFileType;
pub use local::LocalFSFileType;
pub use manifest::ManifestValue;
pub use raw::RawFSFileType;
pub use tree::{FSEntry, FSNode, Flatten};

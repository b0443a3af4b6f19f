//! Attributes reported for nodes, in plain values.

use vstd::prelude::*;

verus! {

/// Permission bits of a directory: `rwxr-xr-x`.
pub const DIR_PERM: u16 = 0o755;

/// Permission bits of a file whose content the manifest holds: `rw-r--r--`.
pub const FILE_PERM: u16 = 0o644;

/// A point in time, as seconds and nanoseconds since the Unix epoch.
#[derive(Clone, Copy, Debug, PartialEq, Eq, Structural)]
pub struct Timestamp {
    pub secs: u64,
    pub nanos: u32,
}

/// The kind of an entry, as the bridge reports it.
#[derive(Clone, Copy, Debug, PartialEq, Eq, Structural)]
pub enum FileKind {
    Directory,
    RegularFile,
}

/// What the host answers for a request: the clock and the owner of the mount.
#[derive(Clone, Copy, Debug, PartialEq, Eq, Structural)]
pub struct HostContext {
    pub now: Timestamp,
    pub uid: u32,
    pub gid: u32,
}

/// The attributes of one node.
#[derive(Clone, Copy, Debug, PartialEq, Eq, Structural)]
pub struct Metadata {
    pub ino: u64,
    pub size: u64,
    pub blocks: u64,
    pub atime: Timestamp,
    pub mtime: Timestamp,
    pub ctime: Timestamp,
    pub crtime: Timestamp,
    pub kind: FileKind,
    pub perm: u16,
    pub nlink: u32,
    pub uid: u32,
    pub gid: u32,
    pub rdev: u32,
    pub flags: u32,
}

/// What the host's `stat` reports of a file.
#[derive(Clone, Copy, Debug, PartialEq, Eq, Structural)]
pub struct FileStatus {
    pub size: u64,
    pub blocks: u64,
    pub atime: Timestamp,
    pub mtime: Timestamp,
    pub ctime: Timestamp,
    pub mode: u32,
    pub nlink: u32,
    pub uid: u32,
    pub gid: u32,
    pub rdev: u32,
}

/// Relies on nix::unistd::getuid: the real user id of this process.
#[verifier::external_body]
fn current_uid() -> (r: u32) {
    nix::unistd::getuid().as_raw()
}

/// Relies on nix::unistd::getgid: the real group id of this process.
#[verifier::external_body]
fn current_gid() -> (r: u32) {
    nix::unistd::getgid().as_raw()
}

impl HostContext {
    /// The context of a request answered at `now` by this process: its own
    /// user and group own every node.
    pub fn capture(now: Timestamp) -> (r: HostContext)
        ensures
            r.now == now,
    {
        let uid = current_uid();
        let gid = current_gid();
        HostContext { now, uid, gid }
    }
}

/// The attributes synthesized for a directory.
pub open spec fn dir_metadata(ino: u64, host: HostContext) -> Metadata {
    Metadata {
        ino,
        size: 0,
        blocks: 0,
        atime: host.now,
        mtime: host.now,
        ctime: host.now,
        crtime: host.now,
        kind: FileKind::Directory,
        perm: DIR_PERM,
        nlink: 2,
        uid: host.uid,
        gid: host.gid,
        rdev: 0,
        flags: 0,
    }
}

/// Attributes of the directory numbered `ino`: no size, two links, fixed
/// permissions, and the host's clock for every timestamp.
pub fn directory_attributes(ino: u64, host: &HostContext) -> (r: Metadata)
    ensures
        r == dir_metadata(ino, *host),
{
    Metadata {
        ino,
        size: 0,
        blocks: 0,
        atime: host.now,
        mtime: host.now,
        ctime: host.now,
        crtime: host.now,
        kind: FileKind::Directory,
        perm: DIR_PERM,
        nlink: 2,
        uid: host.uid,
        gid: host.gid,
        rdev: 0,
        flags: 0,
    }
}

/// The attributes of a regular file of `size` bytes whose content the mount
/// itself provides: one block, fixed permissions, one link, and the host's
/// clock and owner.
pub open spec fn served_file_metadata(ino: u64, size: u64, host: HostContext) -> Metadata {
    Metadata {
        ino,
        size,
        blocks: 1,
        atime: host.now,
        mtime: host.now,
        ctime: host.now,
        crtime: host.now,
        kind: FileKind::RegularFile,
        perm: FILE_PERM,
        nlink: 1,
        uid: host.uid,
        gid: host.gid,
        rdev: 0,
        flags: 0,
    }
}

/// The attributes of a regular file of `size` bytes served by the mount.
pub fn served_file_attributes(ino: u64, size: u64, host: &HostContext) -> (r: Metadata)
    ensures
        r == served_file_metadata(ino, size, *host),
{
    Metadata {
        ino,
        size,
        blocks: 1,
        atime: host.now,
        mtime: host.now,
        ctime: host.now,
        crtime: host.now,
        kind: FileKind::RegularFile,
        perm: FILE_PERM,
        nlink: 1,
        uid: host.uid,
        gid: host.gid,
        rdev: 0,
        flags: 0,
    }
}

/// The attributes of a regular file of the host, as `stat` reported them: the
/// permission bits of its mode, and its creation time taken as its change
/// time.
pub open spec fn status_metadata(ino: u64, st: FileStatus) -> Metadata {
    Metadata {
        ino,
        size: st.size,
        blocks: st.blocks,
        atime: st.atime,
        mtime: st.mtime,
        ctime: st.ctime,
        crtime: st.ctime,
        kind: FileKind::RegularFile,
        perm: (st.mode & 0o7777) as u16,
        nlink: st.nlink,
        uid: st.uid,
        gid: st.gid,
        rdev: st.rdev,
        flags: 0,
    }
}

/// The attributes of a host file, from what `stat` reported of it.
pub fn status_attributes(ino: u64, st: &FileStatus) -> (r: Metadata)
    ensures
        r == status_metadata(ino, *st),
{
    let mode = st.mode;
    let bits: u32 = mode & 0o7777;
    assert(mode & 0o7777u32 <= 0o7777u32) by (bit_vector);
    Metadata {
        ino,
        size: st.size,
        blocks: st.blocks,
        atime: st.atime,
        mtime: st.mtime,
        ctime: st.ctime,
        crtime: st.ctime,
        kind: FileKind::RegularFile,
        perm: bits as u16,
        nlink: st.nlink,
        uid: st.uid,
        gid: st.gid,
        rdev: st.rdev,
        flags: 0,
    }
}

} // verus!

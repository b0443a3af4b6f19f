//! File content backends, and how a file descriptor selects one.

use vstd::prelude::*;
use crate::attr::{served_file_metadata, HostContext, Metadata};
use crate::http::HttpFSFileType;
use crate::local::LocalFSFileType;
use crate::raw::{raw_bytes, RawFSFileType};

verus! {

/// The backend of a file node.
#[derive(Debug)]
pub enum FSFileType {
    Raw(RawFSFileType),
    Local(LocalFSFileType),
    Http(HttpFSFileType),
}

/// A backend as a mathematical value: its variant and the text it carries.
pub enum BackendSpec {
    Raw(Seq<char>),
    Local(Seq<char>),
    Http(Seq<char>),
}

impl View for FSFileType {
    type V = BackendSpec;

    open spec fn view(&self) -> BackendSpec {
        match self {
            FSFileType::Raw(r) => BackendSpec::Raw(r.data@),
            FSFileType::Local(l) => BackendSpec::Local(l.file_path@),
            FSFileType::Http(h) => BackendSpec::Http(h.address@),
        }
    }
}

/// The type that selects embedded content.
pub open spec fn raw_tag() -> Seq<char> {
    seq!['r', 'a', 'w']
}

/// The type that selects a file of the host.
pub open spec fn file_tag() -> Seq<char> {
    seq!['f', 'i', 'l', 'e']
}

/// The address scheme that selects a network resource.
pub open spec fn http_tag() -> Seq<char> {
    seq!['h', 't', 't', 'p']
}

/// The secure address scheme, which selects a network resource too.
pub open spec fn https_tag() -> Seq<char> {
    seq!['h', 't', 't', 'p', 's']
}

/// `k` is the position of the first `:` of `d`.
pub open spec fn separator_at(d: Seq<char>, k: int) -> bool {
    &&& 0 <= k < d.len()
    &&& d[k] == ':'
    &&& forall|j: int| 0 <= j < k ==> d[j] != ':'
}

/// `d` holds a `:`.
pub open spec fn has_separator(d: Seq<char>) -> bool {
    exists|k: int| separator_at(d, k)
}

/// Position of the first `:` of a descriptor that has one.
pub open spec fn separator(d: Seq<char>) -> int {
    choose|k: int| separator_at(d, k)
}

/// The backend that a descriptor `<type>:<pointer>` selects: `raw` embeds the
/// pointer, `file` delegates to the path it names, and an `http` or `https`
/// address is itself the resource. Any other type, or no `:`, selects none.
pub open spec fn parse_descriptor(d: Seq<char>) -> Option<BackendSpec> {
    if !has_separator(d) {
        None
    } else {
        let ty = d.take(separator(d));
        let pointer = d.skip(separator(d) + 1);
        if ty == raw_tag() {
            Some(BackendSpec::Raw(pointer))
        } else if ty == file_tag() {
            Some(BackendSpec::Local(pointer))
        } else if ty == http_tag() || ty == https_tag() {
            Some(BackendSpec::Http(d))
        } else {
            None
        }
    }
}

/// A manifest descriptor that is malformed or of an unknown type.
#[derive(Debug, PartialEq, Eq, Structural)]
pub struct DescriptorError;

/// A request that could not be answered.
#[derive(Clone, Copy, Debug, PartialEq, Eq, Structural)]
pub enum FsError {
    /// No such identity, entry or directory.
    NotFound,
    /// The backend's file or network resource failed.
    IoError,
}

/// The bytes that a read of `len` bytes at `offset` gets from `data`: none
/// at or past its end, else as many as are there, up to `len`.
pub open spec fn read_window(data: Seq<u8>, offset: int, len: int) -> Seq<u8> {
    if offset >= data.len() {
        seq![]
    } else if offset + len <= data.len() {
        data.subrange(offset, offset + len)
    } else {
        data.subrange(offset, data.len() as int)
    }
}

/// Copies the bytes of `data` that a read of `size` bytes at `offset` gets.
pub fn read_window_of(data: &[u8], offset: u64, size: u32) -> (r: Vec<u8>)
    ensures
        r@ == read_window(data@, offset as int, size as int),
{
    let mut out: Vec<u8> = Vec::new();
    if offset >= data.len() as u64 {
        return out;
    }
    let n = data.len();
    let start = offset as usize;
    let avail = n - start;
    let count: usize = if (size as u64) < (avail as u64) {
        size as usize
    } else {
        avail
    };
    let mut j: usize = 0;
    while j < count
        invariant
            j <= count,
            start + count <= n,
            n == data@.len(),
            out@ =~= data@.subrange(start as int, start + j),
        decreases count - j,
    {
        out.push(data[start + j]);
        j = j + 1;
    }
    out
}

/// What answers an attribute request for a file: attributes known at once,
/// or the host operation that supplies them.
#[derive(Debug)]
pub enum AttrPlan {
    /// The attributes themselves.
    Ready(Metadata),
    /// `stat` the host file at `path`, then take
    /// `LocalFSFileType::attributes_for_status`.
    StatLocal { ino: u64, path: String },
    /// Ask the network resource for its length, then take
    /// `HttpFSFileType::attributes_for_length`.
    HeadHttp { ino: u64, address: String },
}

/// What answers a read request: the bytes at once, or the host operation that
/// supplies them.
#[derive(Debug)]
pub enum ReadPlan {
    /// The bytes themselves.
    Ready(Vec<u8>),
    /// Read up to `size` bytes at `offset` of the host file at `path`.
    ReadLocal { path: String, offset: u64, size: u32 },
    /// Fetch the whole resource, then take `HttpFSFileType::read_response`.
    FetchHttp { address: String, offset: u64, size: u32 },
}

/// A read of `len` bytes at `offset` gets nothing at or past the end of the
/// data, and otherwise exactly the data's bytes from `offset` on, as many as
/// the smaller of `len` and what remains.
pub proof fn lemma_read_window(data: Seq<u8>, offset: int, len: int)
    requires
        0 <= offset,
        0 <= len,
    ensures
        offset >= data.len() ==> read_window(data, offset, len).len() == 0,
        offset < data.len() ==> {
            let r = read_window(data, offset, len);
            &&& r.len() == (if len < data.len() - offset {
                len
            } else {
                data.len() - offset
            })
            &&& forall|i: int| 0 <= i < r.len() ==> r[i] == data[offset + i]
        },
{
}

/// Whether `s` spells `lit`.
fn spells(s: &str, lit: &str) -> (r: bool)
    ensures
        r == (s@ == lit@),
{
    s.to_owned() == lit.to_owned()
}

/// The answer to an attribute request for a file numbered `inode`.
pub open spec fn attr_plan(b: FSFileType, inode: u64, host: HostContext) -> AttrPlan {
    match b {
        FSFileType::Raw(r) => AttrPlan::Ready(
            served_file_metadata(inode, raw_bytes(r).len() as u64, host),
        ),
        FSFileType::Local(l) => AttrPlan::StatLocal { ino: inode, path: l.file_path },
        FSFileType::Http(h) => AttrPlan::HeadHttp { ino: inode, address: h.address },
    }
}

/// `p` answers a read of `size` bytes at `offset` of a file with backend `b`.
pub open spec fn read_plan_for(b: FSFileType, offset: u64, size: u32, p: ReadPlan) -> bool {
    match b {
        FSFileType::Raw(r) => p is Ready && p->Ready_0@ == read_window(
            raw_bytes(r),
            offset as int,
            size as int,
        ),
        FSFileType::Local(l) => p == ReadPlan::ReadLocal { path: l.file_path, offset, size },
        FSFileType::Http(h) => p == ReadPlan::FetchHttp { address: h.address, offset, size },
    }
}

impl FSFileType {
    /// The answer to an attribute request for this file, numbered `inode`.
    pub fn get_attributes(&self, inode: u64, host: &HostContext) -> (r: AttrPlan)
        ensures
            r == attr_plan(*self, inode, *host),
    {
        match self {
            FSFileType::Raw(r) => AttrPlan::Ready(r.get_attributes(inode, host)),
            FSFileType::Local(l) => AttrPlan::StatLocal { ino: inode, path: l.file_path.clone() },
            FSFileType::Http(h) => AttrPlan::HeadHttp { ino: inode, address: h.address.clone() },
        }
    }

    /// The answer to a read of `size` bytes at `offset` of this file.
    pub fn read(&self, offset: u64, size: u32) -> (r: ReadPlan)
        ensures
            read_plan_for(*self, offset, size, r),
    {
        match self {
            FSFileType::Raw(r) => ReadPlan::Ready(r.read(offset, size)),
            FSFileType::Local(l) => ReadPlan::ReadLocal { path: l.file_path.clone(), offset, size },
            FSFileType::Http(h) => ReadPlan::FetchHttp { address: h.address.clone(), offset, size },
        }
    }

    /// The backend that `type_descriptor` selects, for a descriptor `address`
    /// of that type whose text after the separator is `pointer`.
    pub fn parse_file_type(type_descriptor: &str, pointer: String, address: &str) -> (r: Result<
        FSFileType,
        DescriptorError,
    >)
        ensures
            type_descriptor@ == raw_tag() ==> r is Ok && r->Ok_0@ == BackendSpec::Raw(pointer@),
            type_descriptor@ == file_tag() ==> r is Ok && r->Ok_0@ == BackendSpec::Local(pointer@),
            type_descriptor@ == http_tag() || type_descriptor@ == https_tag() ==> r is Ok
                && r->Ok_0@ == BackendSpec::Http(address@),
            type_descriptor@ != raw_tag() && type_descriptor@ != file_tag() && type_descriptor@
                != http_tag() && type_descriptor@ != https_tag() ==> r is Err,
    {
        proof {
            reveal_strlit("raw");
            reveal_strlit("file");
            reveal_strlit("http");
            reveal_strlit("https");
            assert("raw"@ =~= raw_tag());
            assert("file"@ =~= file_tag());
            assert("http"@ =~= http_tag());
            assert("https"@ =~= https_tag());
        }
        if spells(type_descriptor, "raw") {
            Ok(FSFileType::Raw(RawFSFileType::new(pointer)))
        } else if spells(type_descriptor, "file") {
            Ok(FSFileType::Local(LocalFSFileType::new(pointer)))
        } else if spells(type_descriptor, "http") || spells(type_descriptor, "https") {
            Ok(FSFileType::Http(HttpFSFileType::new(address.to_owned())))
        } else {
            Err(DescriptorError)
        }
    }
}

} // verus!

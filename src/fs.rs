//! The identity index, the directory-listing cache, and the adapter that
//! answers the filesystem bridge's requests against them.

use vstd::prelude::*;
use crate::attr::{dir_metadata, directory_attributes, FileKind, HostContext};
use crate::backend::{attr_plan, read_plan_for, AttrPlan, FsError, ReadPlan};
use crate::tree::{
    dot, dot_dot, child_named, find_child, lemma_child_in_tree, lemma_linked_closed, linked, nodes_of,
    preorder, well_numbered, built_from, lemma_identities_contiguous, FSEntry, FSNode, Flatten,
};
use crate::manifest::ManifestValue;

verus! {

/// The nodes of a tree by identity: identity `i` is at position `i - 1`.
pub struct InodeIndex<'a> {
    nodes: Vec<&'a FSNode>,
}

impl<'a> View for InodeIndex<'a> {
    type V = Seq<FSNode>;

    closed spec fn view(&self) -> Seq<FSNode> {
        nodes_of(self.nodes@)
    }
}

/// The node numbered `ino` among `nodes`, numbered from 1 in order.
pub open spec fn node_numbered(nodes: Seq<FSNode>, ino: u64) -> Option<FSNode> {
    if 1 <= ino <= nodes.len() {
        Some(nodes[ino - 1])
    } else {
        None
    }
}

impl<'a> InodeIndex<'a> {
    /// Indexes a tree numbered from 1 in pre-order.
    pub fn new(root: &'a FSNode) -> (r: InodeIndex<'a>)
        requires
            well_numbered(*root),
        ensures
            r@ == preorder(*root),
    {
        InodeIndex { nodes: root.flatten() }
    }

    /// The node numbered `inode`, if the tree has one.
    pub fn get(&self, inode: u64) -> (r: Option<&'a FSNode>)
        ensures
            match node_numbered(self@, inode) {
                Some(n) => r is Some && *r->0 == n,
                None => r is None,
            },
    {
        if 1 <= inode && inode <= self.nodes.len() as u64 {
            Some(self.nodes[(inode - 1) as usize])
        } else {
            None
        }
    }
}

/// One entry of a directory listing.
#[derive(Debug)]
pub struct DirEntry {
    pub ino: u64,
    pub kind: FileKind,
    pub name: String,
}

impl View for DirEntry {
    type V = (u64, FileKind, Seq<char>);

    open spec fn view(&self) -> (u64, FileKind, Seq<char>) {
        (self.ino, self.kind, self.name@)
    }
}

/// The kind that a listing reports for a node.
pub open spec fn kind_of(n: FSNode) -> FileKind {
    match n.entry {
        FSEntry::Dir(_) => FileKind::Directory,
        FSEntry::File(_) => FileKind::RegularFile,
    }
}

/// The listing of a directory: itself as `.`, its parent as `..` unless it is
/// the root, then its children in order.
pub open spec fn listing_of(n: FSNode) -> Seq<(u64, FileKind, Seq<char>)> {
    let own = seq![(n.inode, FileKind::Directory, dot())];
    let up = match n.parent {
        Some(p) => seq![(p, FileKind::Directory, dot_dot())],
        None => seq![],
    };
    own + up + n.entry->Dir_0@.map_values(|c: FSNode| (c.inode, kind_of(c), c.name@))
}

/// The entries of a listing as values.
pub open spec fn entry_views(entries: Seq<DirEntry>) -> Seq<(u64, FileKind, Seq<char>)> {
    entries.map_values(|e: DirEntry| e@)
}

/// What a directory read from `offset` delivers of `listing`: the entries
/// from that position on, each with the cursor that resumes after it (its
/// position plus one); none at or past the end.
pub open spec fn page(listing: Seq<(u64, FileKind, Seq<char>)>, offset: int) -> Seq<
    (int, (u64, FileKind, Seq<char>)),
> {
    if offset >= listing.len() {
        seq![]
    } else {
        Seq::new((listing.len() - offset) as nat, |j: int| (offset + j + 1, listing[offset + j]))
    }
}

/// The entries of a page, each with its cursor, as values.
pub open spec fn paged_views(entries: Seq<(u64, DirEntry)>) -> Seq<(int, (u64, FileKind, Seq<char>))> {
    entries.map_values(|e: (u64, DirEntry)| (e.0 as int, e.1@))
}

/// The answer to an attribute request for node `n`: directories' attributes
/// are synthesized, files' come from their backend.
pub open spec fn node_attr_plan(n: FSNode, host: HostContext) -> AttrPlan {
    match n.entry {
        FSEntry::Dir(_) => AttrPlan::Ready(dir_metadata(n.inode, host)),
        FSEntry::File(b) => attr_plan(b, n.inode, host),
    }
}

/// The answer to an attribute request for node `n`.
pub fn get_node_attr(n: &FSNode, host: &HostContext) -> (r: AttrPlan)
    ensures
        r == node_attr_plan(*n, *host),
{
    match &n.entry {
        FSEntry::File(file) => file.get_attributes(n.inode, host),
        FSEntry::Dir(_) => AttrPlan::Ready(directory_attributes(n.inode, host)),
    }
}

/// The identity that an attribute answer is about.
pub open spec fn plan_ino(p: AttrPlan) -> u64 {
    match p {
        AttrPlan::Ready(m) => m.ino,
        AttrPlan::StatLocal { ino, .. } => ino,
        AttrPlan::HeadHttp { ino, .. } => ino,
    }
}

/// Builds the listing of a directory node.
fn generate_dir_listing(n: &FSNode) -> (r: Vec<DirEntry>)
    requires
        n.entry is Dir,
    ensures
        entry_views(r@) == listing_of(*n),
{
    let mut listing: Vec<DirEntry> = Vec::new();
    proof {
        reveal_strlit(".");
        reveal_strlit("..");
        assert("."@ =~= dot());
        assert(".."@ =~= dot_dot());
    }
    listing.push(DirEntry { ino: n.inode, kind: FileKind::Directory, name: ".".to_owned() });
    match n.parent {
        Some(p) => {
            listing.push(DirEntry { ino: p, kind: FileKind::Directory, name: "..".to_owned() });
        },
        None => {},
    }
    let ghost head = entry_views(listing@);
    assert(head =~= listing_of(*n).take(head.len() as int));
    match &n.entry {
        FSEntry::Dir(kids) => {
            let mut i: usize = 0;
            while i < kids.len()
                invariant
                    i <= kids.len(),
                    n.entry is Dir && n.entry->Dir_0 == *kids,
                    head == listing_of(*n).take(head.len() as int),
                    entry_views(listing@) =~= head + kids@.take(i as int).map_values(
                        |c: FSNode| (c.inode, kind_of(c), c.name@),
                    ),
                decreases kids.len() - i,
            {
                let c = &kids[i];
                let kind = match &c.entry {
                    FSEntry::Dir(_) => FileKind::Directory,
                    FSEntry::File(_) => FileKind::RegularFile,
                };
                let ghost prev = entry_views(listing@);
                listing.push(DirEntry { ino: c.inode, kind, name: c.name.clone() });
                assert(kind == kind_of(*c));
                assert(entry_views(listing@) =~= prev.push((c.inode, kind_of(*c), c.name@)));
                assert(kids@.take(i + 1) =~= kids@.take(i as int).push(*c));
                assert(kids@.take(i + 1).map_values(|c: FSNode| (c.inode, kind_of(c), c.name@))
                    =~= kids@.take(i as int).map_values(
                    |c: FSNode| (c.inode, kind_of(c), c.name@),
                ).push((c.inode, kind_of(*c), c.name@)));
                i = i + 1;
            }
            assert(kids@.take(i as int) =~= kids@);
        },
        FSEntry::File(_) => {},
    }
    assert(entry_views(listing@) =~= listing_of(*n));
    listing
}

/// The filesystem served to the bridge: a tree, its index, and the listing
/// of each of its directories, none of which changes once built.
pub struct JsonFS<'a> {
    fs_tree_root: &'a FSNode,
    inode: InodeIndex<'a>,
    dir_listing: Vec<Option<Vec<DirEntry>>>,
}

impl<'a> JsonFS<'a> {
    /// The nodes served, in pre-order: node `i` is numbered `i + 1`.
    pub closed spec fn nodes(&self) -> Seq<FSNode> {
        self.inode@
    }

    /// The tree, its index and its listings agree.
    pub closed spec fn wf(&self) -> bool {
        &&& self.inode@ == preorder(*self.fs_tree_root)
        &&& well_numbered(*self.fs_tree_root)
        &&& linked(*self.fs_tree_root)
        &&& self.fs_tree_root.parent is None
        &&& self.dir_listing@.len() == self.inode@.len()
        &&& forall|i: int|
            0 <= i < self.inode@.len() ==> {
                let n = #[trigger] self.inode@[i];
                match n.entry {
                    FSEntry::Dir(_) => self.dir_listing@[i] is Some && entry_views(
                        self.dir_listing@[i]->0@,
                    ) == listing_of(n),
                    FSEntry::File(_) => self.dir_listing@[i] is None,
                }
            }
    }

    /// The node numbered `ino`, if there is one.
    pub open spec fn node(&self, ino: u64) -> Option<FSNode> {
        node_numbered(self.nodes(), ino)
    }

    /// The filesystem of a tree numbered from 1 in pre-order whose children
    /// point back to their directories, with `inode` its index.
    pub fn new(fs_tree_root: &'a FSNode, inode: InodeIndex<'a>) -> (r: JsonFS<'a>)
        requires
            well_numbered(*fs_tree_root),
            linked(*fs_tree_root),
            fs_tree_root.parent is None,
            inode@ == preorder(*fs_tree_root),
        ensures
            r.wf(),
            r.nodes() == preorder(*fs_tree_root),
    {
        let mut dir_listing: Vec<Option<Vec<DirEntry>>> = Vec::new();
        let mut i: usize = 0;
        while i < inode.nodes.len()
            invariant
                i <= inode.nodes@.len(),
                dir_listing@.len() == i,
                forall|k: int|
                    0 <= k < i ==> {
                        let n = #[trigger] inode@[k];
                        match n.entry {
                            FSEntry::Dir(_) => dir_listing@[k] is Some && entry_views(
                                dir_listing@[k]->0@,
                            ) == listing_of(n),
                            FSEntry::File(_) => dir_listing@[k] is None,
                        }
                    },
            decreases inode.nodes@.len() - i,
        {
            let n: &FSNode = inode.nodes[i];
            assert(inode@[i as int] == *n);
            match &n.entry {
                FSEntry::Dir(_) => dir_listing.push(Some(generate_dir_listing(n))),
                FSEntry::File(_) => dir_listing.push(None),
            }
            i = i + 1;
        }
        JsonFS { fs_tree_root, inode, dir_listing }
    }
}

impl<'a> JsonFS<'a> {
    /// The answer to a lookup of `name` in the directory numbered `parent`.
    pub open spec fn lookup_result(&self, parent: u64, name: Seq<char>, host: HostContext) -> Result<
        AttrPlan,
        FsError,
    > {
        match self.node(parent) {
            Some(p) => match p.entry {
                FSEntry::Dir(kids) => match find_child(kids@, name) {
                    Some(c) => Ok(node_attr_plan(c, host)),
                    None => Err(FsError::NotFound),
                },
                FSEntry::File(_) => Err(FsError::NotFound),
            },
            None => Err(FsError::NotFound),
        }
    }

    /// The answer to an attribute request for the node numbered `ino`.
    pub open spec fn getattr_result(&self, ino: u64, host: HostContext) -> Result<AttrPlan, FsError> {
        match self.node(ino) {
            Some(n) => Ok(node_attr_plan(n, host)),
            None => Err(FsError::NotFound),
        }
    }

    /// Finds the child named `name` of the directory numbered `parent` and
    /// answers for its attributes; `NotFound` when there is no such directory
    /// or no such child.
    pub fn lookup(&self, parent: u64, name: &str, host: &HostContext) -> (r: Result<AttrPlan, FsError>)
        requires
            self.wf(),
        ensures
            r == self.lookup_result(parent, name@, *host),
    {
        let lookup_name = name.to_owned();
        match self.inode.get(parent) {
            Some(p) => match &p.entry {
                FSEntry::Dir(kids) => match child_named(kids, &lookup_name) {
                    Some(c) => Ok(get_node_attr(c, host)),
                    None => Err(FsError::NotFound),
                },
                FSEntry::File(_) => Err(FsError::NotFound),
            },
            None => Err(FsError::NotFound),
        }
    }

    /// Answers for the attributes of the node numbered `ino`; `NotFound` when
    /// there is none.
    pub fn getattr(&self, ino: u64, host: &HostContext) -> (r: Result<AttrPlan, FsError>)
        requires
            self.wf(),
        ensures
            r == self.getattr_result(ino, *host),
    {
        match self.inode.get(ino) {
            Some(n) => Ok(get_node_attr(n, host)),
            None => Err(FsError::NotFound),
        }
    }

    /// Answers a read of `size` bytes at `offset` of the file numbered `ino`;
    /// `NotFound` when there is no such node or it is a directory.
    pub fn read(&self, ino: u64, offset: u64, size: u32) -> (r: Result<ReadPlan, FsError>)
        requires
            self.wf(),
        ensures
            match self.node(ino) {
                Some(n) => match n.entry {
                    FSEntry::File(b) => r is Ok && read_plan_for(b, offset, size, r->Ok_0),
                    FSEntry::Dir(_) => r is Err && r->Err_0 == FsError::NotFound,
                },
                None => r is Err && r->Err_0 == FsError::NotFound,
            },
    {
        match self.inode.get(ino) {
            Some(n) => match &n.entry {
                FSEntry::File(file_type) => Ok(file_type.read(offset, size)),
                FSEntry::Dir(_) => Err(FsError::NotFound),
            },
            None => Err(FsError::NotFound),
        }
    }

    /// The entries of the listing of the directory numbered `ino` from
    /// position `offset` on, each with the cursor that resumes after it;
    /// `NotFound` when there is no such node or it is not a directory.
    pub fn readdir(&self, ino: u64, offset: u64) -> (r: Result<Vec<(u64, DirEntry)>, FsError>)
        requires
            self.wf(),
        ensures
            match self.node(ino) {
                Some(n) => match n.entry {
                    FSEntry::Dir(_) => r is Ok && paged_views(r->Ok_0@) == page(
                        listing_of(n),
                        offset as int,
                    ),
                    FSEntry::File(_) => r is Err && r->Err_0 == FsError::NotFound,
                },
                None => r is Err && r->Err_0 == FsError::NotFound,
            },
    {
        if ino == 0 || ino > self.dir_listing.len() as u64 {
            return Err(FsError::NotFound);
        }
        let k = (ino - 1) as usize;
        assert(self.inode@[k as int] == self.node(ino)->0);
        match &self.dir_listing[k] {
            Some(entries) => {
                let ghost listing = listing_of(self.node(ino)->0);
                let mut out: Vec<(u64, DirEntry)> = Vec::new();
                if offset >= entries.len() as u64 {
                    assert(paged_views(out@) =~= page(listing, offset as int));
                    return Ok(out);
                }
                let start = offset as usize;
                let mut i: usize = start;
                while i < entries.len()
                    invariant
                        start <= i <= entries@.len(),
                        start < entries@.len(),
                        entry_views(entries@) == listing,
                        paged_views(out@) =~= page(listing, start as int).take(i - start),
                    decreases entries.len() - i,
                {
                    let e = &entries[i];
                    let copy = DirEntry { ino: e.ino, kind: e.kind, name: e.name.clone() };
                    let cursor: usize = i + 1;
                    let ghost prev = paged_views(out@);
                    out.push((cursor as u64, copy));
                    assert(entry_views(entries@)[i as int] == e@);
                    assert(paged_views(out@) =~= prev.push((cursor as int, e@)));
                    i = i + 1;
                }
                assert(page(listing, start as int).take(i - start) =~= page(listing, start as int));
                Ok(out)
            },
            None => Err(FsError::NotFound),
        }
    }
}

/// An entry found by name in a directory has, when asked for by its
/// identity, exactly the attributes that the lookup reported.
pub proof fn lemma_lookup_then_getattr(fs: &JsonFS, parent: u64, name: Seq<char>, host: HostContext)
    requires
        fs.wf(),
        fs.lookup_result(parent, name, host) is Ok,
    ensures
        fs.getattr_result(plan_ino(fs.lookup_result(parent, name, host)->Ok_0), host)
            == fs.lookup_result(parent, name, host),
{
    let root = *fs.fs_tree_root;
    let p = fs.node(parent)->0;
    let kids = p.entry->Dir_0@;
    let j = choose|j: int| crate::tree::first_named(kids, name, j);
    let c = kids[j];
    assert(preorder(root)[parent - 1] == p);
    lemma_child_in_tree(root, p, j);
    let m = choose|m: int| 0 <= m < preorder(root).len() && preorder(root)[m] == c;
    assert(preorder(root)[m].inode == m + 1);
    assert(fs.node(c.inode) == Some(c));
}

/// Every node of the filesystem is found by its identity: the node at
/// position `i` of the flattened tree is the node that identity
/// `i + 1` names, and it bears that identity.
pub proof fn lemma_index_round_trip(fs: &JsonFS, i: int)
    requires
        fs.wf(),
        0 <= i < fs.nodes().len(),
    ensures
        fs.nodes()[i].inode == i + 1,
        fs.node(fs.nodes()[i].inode) == Some(fs.nodes()[i]),
{
    assert(preorder(*fs.fs_tree_root)[i].inode == i + 1);
}

/// Building a tree from a manifest, flattening it, and looking up each
/// flattened node by the identity it was given yields that very node.
pub proof fn lemma_build_flatten_lookup(m: ManifestValue, root: FSNode, i: int)
    requires
        built_from(root, seq![], m, 1, None),
        0 <= i < preorder(root).len(),
    ensures
        node_numbered(preorder(root), preorder(root)[i].inode) == Some(preorder(root)[i]),
{
    lemma_identities_contiguous(m, root);
}

/// Reading a directory page by page delivers its listing exactly: a page at
/// or past the end is empty, the page from 0 is the whole listing, and after
/// any number of entries of a page are delivered, the page from the cursor
/// of the last of them is the rest of that page.
pub proof fn lemma_pages_resume(
    listing: Seq<(u64, FileKind, Seq<char>)>,
    offset: int,
    delivered: int,
)
    requires
        0 <= offset,
        0 <= delivered <= page(listing, offset).len(),
    ensures
        offset >= listing.len() ==> page(listing, offset).len() == 0,
        page(listing, 0).map_values(|e: (int, (u64, FileKind, Seq<char>))| e.1) =~= listing,
        delivered > 0 ==> page(listing, offset)[delivered - 1].0 == offset + delivered,
        page(listing, offset) =~= page(listing, offset).take(delivered) + page(
            listing,
            offset + delivered,
        ),
{
}

/// A directory's listing names it `.` first and nothing else so, and names
/// its parent `..` second when it has one, and nothing else so, provided no
/// child bears either name.
pub proof fn lemma_listing_shape(n: FSNode)
    requires
        n.entry is Dir,
        forall|j: int|
            0 <= j < n.entry->Dir_0@.len() ==> (#[trigger] n.entry->Dir_0@[j]).name@ != dot()
                && n.entry->Dir_0@[j].name@ != dot_dot(),
    ensures
        listing_of(n)[0] == (n.inode, FileKind::Directory, dot()),
        forall|k: int| 0 < k < listing_of(n).len() ==> (#[trigger] listing_of(n)[k]).2 != dot(),
        n.parent is Some ==> listing_of(n)[1] == (n.parent->0, FileKind::Directory, dot_dot()),
        forall|k: int|
            0 <= k < listing_of(n).len() && (n.parent is None || k != 1) ==> (#[trigger] listing_of(
                n,
            )[k]).2 != dot_dot(),
{
    let kids = n.entry->Dir_0@;
    let up: Seq<(u64, FileKind, Seq<char>)> = match n.parent {
        Some(p) => seq![(p, FileKind::Directory, dot_dot())],
        None => seq![],
    };
    let own = seq![(n.inode, FileKind::Directory, dot())];
    let rest = kids.map_values(|c: FSNode| (c.inode, kind_of(c), c.name@));
    assert(listing_of(n) == own + up + rest);
    assert(dot() != dot_dot()) by {
        assert(dot().len() != dot_dot().len());
    }
    assert forall|k: int| 0 < k < listing_of(n).len() implies (#[trigger] listing_of(n)[k]).2 != dot() by {
        if k >= 1 + up.len() {
            assert(listing_of(n)[k] == rest[k - 1 - up.len()]);
        }
    }
    assert forall|k: int|
        0 <= k < listing_of(n).len() && (n.parent is None || k != 1) implies (#[trigger] listing_of(
            n,
        )[k]).2 != dot_dot() by {
        if k >= 1 + up.len() {
            assert(listing_of(n)[k] == rest[k - 1 - up.len()]);
        }
    }
}

/// The root, numbered 1, has no parent; every other directory's `..` names
/// the directory that holds it, and the child is found by its own identity.
pub proof fn lemma_parent_entries(fs: &JsonFS, d: u64, j: int)
    requires
        fs.wf(),
        fs.node(d) is Some,
        fs.node(d)->0.entry is Dir,
        0 <= j < fs.node(d)->0.entry->Dir_0@.len(),
    ensures
        fs.node(1) is Some && fs.node(1)->0.parent is None,
        ({
            let c = fs.node(d)->0.entry->Dir_0@[j];
            &&& fs.node(c.inode) == Some(c)
            &&& c.parent == Some(d)
            &&& c.entry is Dir ==> listing_of(c)[1] == (d, FileKind::Directory, dot_dot())
        }),
{
    let root = *fs.fs_tree_root;
    let x = fs.node(d)->0;
    let c = x.entry->Dir_0@[j];
    assert(preorder(root)[0] == root);
    assert(preorder(root)[d - 1] == x);
    assert(x.inode == d);
    lemma_child_in_tree(root, x, j);
    lemma_linked_closed(root, x);
    let m = choose|m: int| 0 <= m < preorder(root).len() && preorder(root)[m] == c;
    assert(preorder(root)[m].inode == m + 1);
    if c.entry is Dir {
        assert(listing_of(c)[1] == (d, FileKind::Directory, dot_dot()));
    }
}

} // verus!

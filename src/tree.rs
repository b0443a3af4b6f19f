//! The tree of nodes built from a manifest, numbered in pre-order.

use vstd::prelude::*;
use crate::backend::{
    has_separator, parse_descriptor, separator, separator_at, DescriptorError, FSFileType,
};
use crate::manifest::{entries_size, manifest_size, ManifestValue};

verus! {

/// One entry of the filesystem. `parent` is the identity of the enclosing
/// directory, absent for the root: the tree owns its nodes from the root down
/// only, and the way up goes through identities.
#[derive(Debug)]
pub struct FSNode {
    pub inode: u64,
    pub name: String,
    pub parent: Option<u64>,
    pub entry: FSEntry,
}

/// What a node is: a file with its backend, or a directory owning its
/// children in order.
#[derive(Debug)]
pub enum FSEntry {
    File(FSFileType),
    Dir(Vec<FSNode>),
}

/// Every string of the value is a descriptor that selects a backend, and no
/// value is of another kind than object or string.
pub open spec fn manifest_ok(m: ManifestValue) -> bool
    decreases m,
{
    match m {
        ManifestValue::Object(entries) => entries_ok(entries@),
        ManifestValue::Text(d) => parse_descriptor(d@) is Some,
        ManifestValue::Other => false,
    }
}

/// Every value of a list of object entries is as `manifest_ok` asks.
pub open spec fn entries_ok(entries: Seq<(String, ManifestValue)>) -> bool
    decreases entries,
{
    entries.len() == 0 || (entries_ok(entries.drop_last()) && manifest_ok(entries.last().1))
}

/// `n` is the node built from value `m` under the name `name`, numbered
/// `id`, whose enclosing directory is `parent`: its own identity first, then
/// those of its children, depth first, in manifest order.
pub open spec fn built_from(
    n: FSNode,
    name: Seq<char>,
    m: ManifestValue,
    id: int,
    parent: Option<u64>,
) -> bool
    decreases m,
{
    &&& n.inode == id
    &&& n.name@ == name
    &&& n.parent == parent
    &&& match m {
        ManifestValue::Object(entries) => n.entry is Dir && children_built(
            n.entry->Dir_0@,
            entries@,
            id + 1,
            n.inode,
        ),
        ManifestValue::Text(d) => n.entry is File && parse_descriptor(d@) == Some(
            n.entry->File_0@,
        ),
        ManifestValue::Other => false,
    }
}

/// `kids` are the nodes built from `entries`, the first numbered `first`,
/// all of them children of the directory numbered `parent`.
pub open spec fn children_built(
    kids: Seq<FSNode>,
    entries: Seq<(String, ManifestValue)>,
    first: int,
    parent: u64,
) -> bool
    decreases entries,
{
    &&& kids.len() == entries.len()
    &&& entries.len() > 0 ==> {
        &&& children_built(kids.drop_last(), entries.drop_last(), first, parent)
        &&& built_from(
            kids.last(),
            entries.last().0@,
            entries.last().1,
            first + entries_size(entries.drop_last()),
            Some(parent),
        )
    }
}

/// The nodes of a tree in pre-order: each node before its children, the
/// children in order.
pub open spec fn preorder(n: FSNode) -> Seq<FSNode>
    decreases n,
{
    match n.entry {
        FSEntry::Dir(kids) => seq![n] + preorder_forest(kids@),
        FSEntry::File(_) => seq![n],
    }
}

/// The nodes of a list of trees in pre-order, one tree after the other.
pub open spec fn preorder_forest(trees: Seq<FSNode>) -> Seq<FSNode>
    decreases trees,
{
    if trees.len() == 0 {
        seq![]
    } else {
        preorder_forest(trees.drop_last()) + preorder(trees.last())
    }
}

/// The nodes that a sequence of references points to.
pub open spec fn nodes_of(refs: Seq<&FSNode>) -> Seq<FSNode> {
    refs.map_values(|r: &FSNode| *r)
}

/// Identities run from 1 in pre-order: the node at position `i` of the
/// flattened tree is numbered `i + 1`.
pub open spec fn well_numbered(root: FSNode) -> bool {
    &&& preorder(root).len() <= u64::MAX
    &&& forall|i: int| 0 <= i < preorder(root).len() ==> (#[trigger] preorder(root)[i]).inode == i + 1
}

/// Every child of every directory of the tree points back to that
/// directory's identity.
pub open spec fn linked(n: FSNode) -> bool
    decreases n,
{
    match n.entry {
        FSEntry::Dir(kids) => forest_linked(kids@, n.inode),
        FSEntry::File(_) => true,
    }
}

/// Every tree of a list is linked, and its root points back to `parent`.
pub open spec fn forest_linked(trees: Seq<FSNode>, parent: u64) -> bool
    decreases trees,
{
    trees.len() == 0 || {
        &&& forest_linked(trees.drop_last(), parent)
        &&& trees.last().parent == Some(parent)
        &&& linked(trees.last())
    }
}

/// The name of a directory's entry for itself.
pub open spec fn dot() -> Seq<char> {
    seq!['.']
}

/// The name of a directory's entry for its parent.
pub open spec fn dot_dot() -> Seq<char> {
    seq!['.', '.']
}

/// `j` is the position of the first of `kids` named `name`.
pub open spec fn first_named(kids: Seq<FSNode>, name: Seq<char>, j: int) -> bool {
    &&& 0 <= j < kids.len()
    &&& kids[j].name@ == name
    &&& forall|k: int| 0 <= k < j ==> kids[k].name@ != name
}

/// The first of `kids` named `name`, if any is.
pub open spec fn find_child(kids: Seq<FSNode>, name: Seq<char>) -> Option<FSNode> {
    if exists|j: int| first_named(kids, name, j) {
        Some(kids[choose|j: int| first_named(kids, name, j)])
    } else {
        None
    }
}

/// The first of `kids` named `name`, if any is.
pub fn child_named<'a>(kids: &'a Vec<FSNode>, name: &String) -> (r: Option<&'a FSNode>)
    ensures
        match find_child(kids@, name@) {
            Some(c) => r is Some && *r->0 == c,
            None => r is None,
        },
{
    let mut j: usize = 0;
    while j < kids.len()
        invariant
            j <= kids.len(),
            forall|k: int| 0 <= k < j ==> kids@[k].name@ != name@,
        decreases kids.len() - j,
    {
        if kids[j].name == *name {
            assert(first_named(kids@, name@, j as int));
            return Some(&kids[j]);
        }
        j = j + 1;
    }
    proof {
        if exists|k: int| first_named(kids@, name@, k) {
            let k = choose|k: int| first_named(kids@, name@, k);
            assert(kids@[k].name@ != name@);
        }
    }
    None
}

proof fn lemma_forest_linked_each(trees: Seq<FSNode>, parent: u64, j: int)
    requires
        forest_linked(trees, parent),
        0 <= j < trees.len(),
    ensures
        trees[j].parent == Some(parent),
        linked(trees[j]),
    decreases trees.len(),
{
    if j < trees.len() - 1 {
        lemma_forest_linked_each(trees.drop_last(), parent, j);
    }
}

proof fn lemma_forest_member(trees: Seq<FSNode>, j: int, y: FSNode)
    requires
        0 <= j < trees.len(),
        preorder(trees[j]).contains(y),
    ensures
        preorder_forest(trees).contains(y),
    decreases trees.len(),
{
    let front = preorder_forest(trees.drop_last());
    let back = preorder(trees.last());
    assert(preorder_forest(trees) == front + back);
    if j == trees.len() - 1 {
        let k = choose|k: int| 0 <= k < back.len() && back[k] == y;
        assert((front + back)[front.len() + k] == y);
    } else {
        lemma_forest_member(trees.drop_last(), j, y);
        let k = choose|k: int| 0 <= k < front.len() && front[k] == y;
        assert((front + back)[k] == y);
    }
}

proof fn lemma_forest_member_inv(trees: Seq<FSNode>, y: FSNode) -> (j: int)
    requires
        preorder_forest(trees).contains(y),
    ensures
        0 <= j < trees.len(),
        preorder(trees[j]).contains(y),
    decreases trees.len(),
{
    let front = preorder_forest(trees.drop_last());
    let back = preorder(trees.last());
    assert(preorder_forest(trees) == front + back);
    let k = choose|k: int| 0 <= k < (front + back).len() && (front + back)[k] == y;
    if k < front.len() {
        assert(front[k] == y);
        lemma_forest_member_inv(trees.drop_last(), y)
    } else {
        assert(back[k - front.len()] == y);
        trees.len() - 1
    }
}

/// The subtree of a node of a tree lies within that tree.
proof fn lemma_subtree_closed(n: FSNode, x: FSNode, y: FSNode)
    requires
        preorder(n).contains(x),
        preorder(x).contains(y),
    ensures
        preorder(n).contains(y),
    decreases n,
{
    if x != n {
        match n.entry {
            FSEntry::Dir(kids) => {
                let k = choose|k: int| 0 <= k < preorder(n).len() && preorder(n)[k] == x;
                assert(preorder(n)[k] == preorder_forest(kids@)[k - 1]);
                let j = lemma_forest_member_inv(kids@, x);
                assert(decreases_to!(n => kids@[j]));
                lemma_subtree_closed(kids@[j], x, y);
                lemma_forest_member(kids@, j, y);
                let m = choose|m: int| 0 <= m < preorder_forest(kids@).len() && preorder_forest(kids@)[m] == y;
                assert(preorder(n)[m + 1] == y);
            },
            FSEntry::File(_) => {
                assert(preorder(n)[0] == x);
            },
        }
    }
}

/// Each child of a directory of a tree is itself a node of the tree.
pub proof fn lemma_child_in_tree(root: FSNode, x: FSNode, j: int)
    requires
        preorder(root).contains(x),
        x.entry is Dir,
        0 <= j < x.entry->Dir_0@.len(),
    ensures
        preorder(root).contains(x.entry->Dir_0@[j]),
{
    let kids = x.entry->Dir_0@;
    let c = kids[j];
    assert(preorder(c)[0] == c);
    lemma_forest_member(kids, j, c);
    let m = choose|m: int| 0 <= m < preorder_forest(kids).len() && preorder_forest(kids)[m] == c;
    assert(preorder(x)[m + 1] == c);
    lemma_subtree_closed(root, x, c);
}

/// In a linked tree every node is linked, and so every child points back to
/// the directory that holds it.
pub proof fn lemma_linked_closed(root: FSNode, x: FSNode)
    requires
        linked(root),
        preorder(root).contains(x),
    ensures
        linked(x),
        x.entry is Dir ==> forall|j: int|
            0 <= j < x.entry->Dir_0@.len() ==> (#[trigger] x.entry->Dir_0@[j]).parent == Some(x.inode),
    decreases root,
{
    if x != root {
        match root.entry {
            FSEntry::Dir(kids) => {
                let k = choose|k: int| 0 <= k < preorder(root).len() && preorder(root)[k] == x;
                assert(preorder(root)[k] == preorder_forest(kids@)[k - 1]);
                let j = lemma_forest_member_inv(kids@, x);
                lemma_forest_linked_each(kids@, root.inode, j);
                assert(decreases_to!(root => kids@[j]));
                lemma_linked_closed(kids@[j], x);
            },
            FSEntry::File(_) => {
                assert(preorder(root)[0] == x);
            },
        }
    }
    if x.entry is Dir {
        assert forall|j: int| 0 <= j < x.entry->Dir_0@.len() implies (#[trigger] x.entry->Dir_0@[j]).parent == Some(x.inode) by {
            lemma_forest_linked_each(x.entry->Dir_0@, x.inode, j);
        }
    }
}

proof fn lemma_built_linked(n: FSNode, name: Seq<char>, m: ManifestValue, id: int, parent: Option<u64>)
    requires
        built_from(n, name, m, id, parent),
    ensures
        linked(n),
    decreases m,
{
    match m {
        ManifestValue::Object(entries) => {
            lemma_children_linked(n.entry->Dir_0@, entries@, id + 1, n.inode);
        },
        _ => {},
    }
}

proof fn lemma_children_linked(
    kids: Seq<FSNode>,
    entries: Seq<(String, ManifestValue)>,
    first: int,
    parent: u64,
)
    requires
        children_built(kids, entries, first, parent),
    ensures
        forest_linked(kids, parent),
    decreases entries,
{
    if entries.len() > 0 {
        let last = entries.last();
        lemma_children_linked(kids.drop_last(), entries.drop_last(), first, parent);
        lemma_built_linked(kids.last(), last.0@, last.1, first + entries_size(entries.drop_last()), Some(parent));
    }
}

proof fn lemma_built_numbering(n: FSNode, name: Seq<char>, m: ManifestValue, id: int, parent: Option<u64>)
    requires
        built_from(n, name, m, id, parent),
    ensures
        preorder(n).len() == manifest_size(m),
        forall|i: int| 0 <= i < preorder(n).len() ==> (#[trigger] preorder(n)[i]).inode == id + i,
    decreases m,
{
    match m {
        ManifestValue::Object(entries) => {
            let kids = n.entry->Dir_0@;
            lemma_children_numbering(kids, entries@, id + 1, n.inode);
            assert forall|i: int| 0 <= i < preorder(n).len() implies (#[trigger] preorder(n)[i]).inode == id + i by {
                if i > 0 {
                    assert(preorder(n)[i] == preorder_forest(kids)[i - 1]);
                }
            }
        },
        _ => {},
    }
}

proof fn lemma_children_numbering(
    kids: Seq<FSNode>,
    entries: Seq<(String, ManifestValue)>,
    first: int,
    parent: u64,
)
    requires
        children_built(kids, entries, first, parent),
    ensures
        preorder_forest(kids).len() == entries_size(entries),
        forall|i: int| 0 <= i < preorder_forest(kids).len() ==> (#[trigger] preorder_forest(kids)[i]).inode == first + i,
    decreases entries,
{
    if entries.len() > 0 {
        let last = entries.last();
        lemma_children_numbering(kids.drop_last(), entries.drop_last(), first, parent);
        lemma_built_numbering(kids.last(), last.0@, last.1, first + entries_size(entries.drop_last()), Some(parent));
        let front = preorder_forest(kids.drop_last());
        let back = preorder(kids.last());
        assert forall|i: int| 0 <= i < preorder_forest(kids).len() implies (#[trigger] preorder_forest(kids)[i]).inode == first + i by {
            if i < front.len() {
                assert(preorder_forest(kids)[i] == front[i]);
            } else {
                assert(preorder_forest(kids)[i] == back[i - front.len()]);
            }
        }
    }
}

/// A tree built from a manifest has exactly as many nodes as the manifest
/// stands for, and its identities are exactly 1 to that number, one for each
/// node, given in pre-order.
pub proof fn lemma_identities_contiguous(m: ManifestValue, root: FSNode)
    requires
        built_from(root, seq![], m, 1, None),
    ensures
        preorder(root).len() == manifest_size(m),
        forall|i: int| 0 <= i < preorder(root).len() ==> (#[trigger] preorder(root)[i]).inode == i + 1,
        preorder(root).map_values(|n: FSNode| n.inode as int).to_set() =~= Set::new(
            |k: int| 1 <= k <= manifest_size(m),
        ),
{
    lemma_built_numbering(root, seq![], m, 1, None);
    let ids = preorder(root).map_values(|n: FSNode| n.inode as int);
    assert forall|k: int| 1 <= k <= manifest_size(m) implies ids.to_set().contains(k) by {
        assert(ids[k - 1] == k);
        assert(ids.contains(k));
    }
    assert forall|k: int| ids.to_set().contains(k) implies 1 <= k <= manifest_size(m) by {
        assert(ids.contains(k));
        let i = choose|i: int| 0 <= i < ids.len() && ids[i] == k;
        assert(preorder(root)[i].inode == i + 1);
    }
}

proof fn lemma_entries_take(entries: Seq<(String, ManifestValue)>, i: int)
    requires
        0 <= i <= entries.len(),
    ensures
        entries_size(entries.take(i)) <= entries_size(entries),
        entries_ok(entries) ==> entries_ok(entries.take(i)),
    decreases entries.len(),
{
    if i == entries.len() {
        assert(entries.take(i) =~= entries);
    } else {
        lemma_entries_take(entries.drop_last(), i);
        assert(entries.drop_last().take(i) =~= entries.take(i));
    }
}

impl FSNode {
    /// Builds the tree of a manifest: the root is the value itself, unnamed
    /// and numbered 1. Fails when any descriptor is malformed or any value is
    /// neither object nor string, or when the nodes outnumber the identities.
    pub fn new(descriptor: ManifestValue) -> (r: Result<FSNode, DescriptorError>)
        ensures
            r is Ok <==> manifest_ok(descriptor) && manifest_size(descriptor) <= u64::MAX,
            r is Ok ==> built_from(r->Ok_0, seq![], descriptor, 1, None),
            r is Ok ==> well_numbered(r->Ok_0),
            r is Ok ==> linked(r->Ok_0) && r->Ok_0.parent is None,
            r is Ok ==> preorder(r->Ok_0).len() == manifest_size(descriptor),
    {
        let mut counter: u64 = 0;
        let r = FSNode::build(&mut counter, None, String::new(), &descriptor);
        proof {
            if r is Ok {
                lemma_built_numbering(r->Ok_0, seq![], descriptor, 1, None);
                lemma_built_linked(r->Ok_0, seq![], descriptor, 1, None);
            }
        }
        r
    }

    /// Appends the nodes of this tree to `out`, in pre-order.
    fn flatten_into<'a>(&'a self, out: &mut Vec<&'a FSNode>)
        ensures
            nodes_of(final(out)@) == nodes_of(old(out)@) + preorder(*self),
        decreases *self,
    {
        let ghost start = nodes_of(out@);
        out.push(self);
        assert(nodes_of(out@) =~= start + seq![*self]);
        match &self.entry {
            FSEntry::Dir(kids) => {
                let mut i: usize = 0;
                while i < kids.len()
                    invariant
                        i <= kids.len(),
                        self.entry is Dir && self.entry->Dir_0 == *kids,
                        nodes_of(out@) == start + seq![*self] + preorder_forest(
                            kids@.take(i as int),
                        ),
                    decreases kids.len() - i,
                {
                    assert(kids@.take(i + 1).drop_last() =~= kids@.take(i as int));
                    assert(decreases_to!(*kids => kids[i as int]));
                    assert(decreases_to!(self.entry => self.entry->Dir_0));
                    assert(decreases_to!(*self => kids@[i as int]));
                    kids[i].flatten_into(out);
                    assert(nodes_of(out@) =~= start + seq![*self] + preorder_forest(
                        kids@.take(i + 1),
                    ));
                    i = i + 1;
                }
                assert(kids@.take(i as int) =~= kids@);
            },
            FSEntry::File(_) => {},
        }
    }


    /// Builds the node of `descriptor`; `counter` holds the last identity
    /// given out, and holds the last one given out in this subtree after.
    fn build(
        counter: &mut u64,
        parent: Option<u64>,
        name: String,
        descriptor: &ManifestValue,
    ) -> (r: Result<FSNode, DescriptorError>)
        ensures
            r is Ok <==> manifest_ok(*descriptor) && *old(counter) + manifest_size(*descriptor)
                <= u64::MAX,
            r is Ok ==> built_from(r->Ok_0, name@, *descriptor, *old(counter) + 1, parent),
            r is Ok ==> *final(counter) == *old(counter) + manifest_size(*descriptor),
        decreases *descriptor,
    {
        if *counter == u64::MAX {
            return Err(DescriptorError);
        }
        *counter = *counter + 1;
        let this_node_inode = *counter;
        let entry = match descriptor {
            ManifestValue::Object(entries) => {
                match FSEntry::create_directory(counter, this_node_inode, entries) {
                    Ok(e) => e,
                    Err(e) => return Err(e),
                }
            },
            ManifestValue::Text(s) => {
                match FSEntry::create_file(s.clone()) {
                    Ok(e) => e,
                    Err(e) => return Err(e),
                }
            },
            ManifestValue::Other => return Err(DescriptorError),
        };
        Ok(FSNode { inode: this_node_inode, name, parent, entry })
    }
}

/// A structure whose nodes can be listed, each by reference.
pub trait Flatten<T> {
    /// The nodes, in the order that `flatten` lists them.
    spec fn flattened(&self) -> Seq<T>;

    fn flatten<'a>(&'a self) -> (r: Vec<&'a T>)
        ensures
            r@.map_values(|x: &T| *x) == self.flattened(),
    ;
}

impl Flatten<FSNode> for FSNode {
    open spec fn flattened(&self) -> Seq<FSNode> {
        preorder(*self)
    }

    /// The nodes of this tree in pre-order, the root first.
    fn flatten<'a>(&'a self) -> (r: Vec<&'a FSNode>) {
        let mut out: Vec<&'a FSNode> = Vec::new();
        assert(nodes_of(out@) =~= seq![]);
        self.flatten_into(&mut out);
        assert(nodes_of(out@) =~= preorder(*self));
        out
    }
}

impl FSEntry {
    /// The file entry that a descriptor `<type>:<pointer>` describes.
    pub fn create_file(file_descriptor: String) -> (r: Result<FSEntry, DescriptorError>)
        ensures
            match parse_descriptor(file_descriptor@) {
                Some(b) => r is Ok && r->Ok_0 is File && r->Ok_0->File_0@ == b,
                None => r is Err,
            },
    {
        let s = file_descriptor.as_str();
        let n = s.unicode_len();
        let mut k: usize = 0;
        while k < n && s.get_char(k) != ':'
            invariant
                k <= n,
                n == s@.len(),
                s@ == file_descriptor@,
                forall|j: int| 0 <= j < k ==> s@[j] != ':',
            decreases n - k,
        {
            k = k + 1;
        }
        if k == n {
            proof {
                if has_separator(s@) {
                    let j = choose|j: int| separator_at(s@, j);
                    assert(s@[j] != ':');
                }
            }
            return Err(DescriptorError);
        }
        proof {
            assert(separator_at(s@, k as int));
            assert(separator(s@) == k);
        }
        let ty = s.substring_char(0, k);
        let pointer = s.substring_char(k + 1, n).to_owned();
        assert(ty@ == s@.take(k as int));
        assert(pointer@ == s@.skip(k + 1));
        match FSFileType::parse_file_type(ty, pointer, s) {
            Ok(f) => Ok(FSEntry::File(f)),
            Err(e) => Err(e),
        }
    }

    /// Builds the children of the directory numbered `dir_inode`, which is the
    /// value of `counter` on entry.
    fn create_directory(
        counter: &mut u64,
        dir_inode: u64,
        entries: &Vec<(String, ManifestValue)>,
    ) -> (r: Result<FSEntry, DescriptorError>)
        requires
            *old(counter) == dir_inode,
        ensures
            r is Ok <==> entries_ok(entries@) && dir_inode + entries_size(entries@) <= u64::MAX,
            r is Ok ==> r->Ok_0 is Dir && children_built(
                r->Ok_0->Dir_0@,
                entries@,
                dir_inode + 1,
                dir_inode,
            ),
            r is Ok ==> *final(counter) == dir_inode + entries_size(entries@),
        decreases *entries, 0nat,
    {
        let mut kids: Vec<FSNode> = Vec::new();
        let mut i: usize = 0;
        while i < entries.len()
            invariant
                i <= entries.len(),
                entries_ok(entries@.take(i as int)),
                *counter == dir_inode + entries_size(entries@.take(i as int)),
                children_built(kids@, entries@.take(i as int), dir_inode + 1, dir_inode),
            decreases entries.len() - i,
        {
            let ghost before = *counter;
            let ghost done = entries@.take(i as int);
            let ghost upto = entries@.take(i + 1);
            let ghost prev_kids = kids@;
            assert(upto.drop_last() =~= done);
            assert(upto.last() == entries@[i as int]);
            let (key, value) = &entries[i];
            assert(decreases_to!(*entries => entries@[i as int].1));
            match FSNode::build(counter, Some(dir_inode), key.clone(), value) {
                Ok(node) => {
                    kids.push(node);
                    assert(kids@.drop_last() =~= prev_kids);
                },
                Err(e) => {
                    proof {
                        lemma_entries_take(entries@, i + 1);
                    }
                    return Err(e);
                },
            }
            i = i + 1;
        }
        assert(entries@.take(i as int) =~= entries@);
        Ok(FSEntry::Dir(kids))
    }
}

} // verus!

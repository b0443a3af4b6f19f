use json_fuse_fs::fs::DirEntry;
use json_fuse_fs::{
    AttrPlan, DescriptorError, FSEntry, FSFileType, FSNode, FileKind, FileStatus, Flatten,
    FsError, HostContext, HttpFSFileType, InodeIndex, JsonFS, LocalFSFileType, ManifestValue,
    Metadata, RawFSFileType, ReadPlan, Timestamp,
};

fn text(s: &str) -> ManifestValue {
    ManifestValue::Text(s.to_string())
}

fn object(entries: Vec<(&str, ManifestValue)>) -> ManifestValue {
    ManifestValue::Object(entries.into_iter().map(|(k, v)| (k.to_string(), v)).collect())
}

fn host() -> HostContext {
    HostContext { now: Timestamp { secs: 1_700_000_000, nanos: 5 }, uid: 1000, gid: 100 }
}

fn ready(plan: AttrPlan) -> Metadata {
    match plan {
        AttrPlan::Ready(m) => m,
        other => panic!("attributes not ready: {:?}", other),
    }
}

fn data(plan: ReadPlan) -> Vec<u8> {
    match plan {
        ReadPlan::Ready(d) => d,
        other => panic!("data not ready: {:?}", other),
    }
}

fn names(entries: &[(u64, DirEntry)]) -> Vec<(u64, u64, FileKind, String)> {
    entries.iter().map(|(c, e)| (*c, e.ino, e.kind, e.name.clone())).collect()
}

#[test]
fn single_raw_file_lookup_and_read() {
    let tree = FSNode::new(object(vec![("file.txt", text("raw:abc"))])).unwrap();
    let fs = JsonFS::new(&tree, InodeIndex::new(&tree));
    let m = ready(fs.lookup(1, "file.txt", &host()).unwrap());
    assert_eq!(m.ino, 2);
    assert_eq!(m.kind, FileKind::RegularFile);
    assert_eq!(m.size, 3);
    assert_eq!(m.perm, 0o644);
    assert_eq!(m.nlink, 1);
    assert_eq!(m.uid, 1000);
    assert_eq!(m.gid, 100);
    assert_eq!(data(fs.read(2, 0, 10).unwrap()), b"abc".to_vec());
}

#[test]
fn nested_directory_listing_and_parent() {
    let tree = FSNode::new(object(vec![("nested", object(vec![("nested.txt", text("raw:cba"))]))]))
        .unwrap();
    let fs = JsonFS::new(&tree, InodeIndex::new(&tree));
    let root_listing = fs.readdir(1, 0).unwrap();
    assert_eq!(
        names(&root_listing),
        vec![
            (1, 1, FileKind::Directory, ".".to_string()),
            (2, 2, FileKind::Directory, "nested".to_string()),
        ]
    );
    let found = ready(fs.lookup(2, "nested.txt", &host()).unwrap());
    assert_eq!(found.ino, 3);
    let nested_listing = fs.readdir(2, 0).unwrap();
    assert_eq!(
        names(&nested_listing),
        vec![
            (1, 2, FileKind::Directory, ".".to_string()),
            (2, 1, FileKind::Directory, "..".to_string()),
            (3, 3, FileKind::RegularFile, "nested.txt".to_string()),
        ]
    );
}

#[test]
fn unknown_descriptor_type_fails() {
    let r = FSNode::new(object(vec![("bad.txt", text("unknown:xyz"))]));
    assert_eq!(r.err(), Some(DescriptorError));
}

#[test]
fn descriptor_without_separator_fails() {
    let r = FSNode::new(object(vec![("a", text("raw:x")), ("bad.txt", text("rawabc"))]));
    assert_eq!(r.err(), Some(DescriptorError));
}

#[test]
fn value_of_other_kind_fails() {
    let r = FSNode::new(object(vec![("n", ManifestValue::Other)]));
    assert_eq!(r.err(), Some(DescriptorError));
    assert_eq!(FSNode::new(ManifestValue::Other).err(), Some(DescriptorError));
}

#[test]
fn getattr_of_unknown_identity_is_not_found() {
    let tree = FSNode::new(object(vec![("file.txt", text("raw:abc"))])).unwrap();
    let fs = JsonFS::new(&tree, InodeIndex::new(&tree));
    assert_eq!(fs.getattr(3, &host()).err(), Some(FsError::NotFound));
    assert_eq!(fs.getattr(0, &host()).err(), Some(FsError::NotFound));
    assert_eq!(fs.getattr(u64::MAX, &host()).err(), Some(FsError::NotFound));
}

#[test]
fn lookup_then_getattr_agree() {
    let tree = FSNode::new(object(vec![
        ("d", object(vec![("f", text("raw:hello"))])),
        ("g", text("raw:xy")),
    ]))
    .unwrap();
    let fs = JsonFS::new(&tree, InodeIndex::new(&tree));
    for (parent, name) in [(1u64, "d"), (1, "g"), (2, "f")] {
        let by_name = ready(fs.lookup(parent, name, &host()).unwrap());
        let by_ino = ready(fs.getattr(by_name.ino, &host()).unwrap());
        assert_eq!(by_name, by_ino);
    }
}

#[test]
fn lookup_failures_are_not_found() {
    let tree = FSNode::new(object(vec![("file.txt", text("raw:abc"))])).unwrap();
    let fs = JsonFS::new(&tree, InodeIndex::new(&tree));
    assert_eq!(fs.lookup(1, "missing", &host()).err(), Some(FsError::NotFound));
    assert_eq!(fs.lookup(2, "file.txt", &host()).err(), Some(FsError::NotFound));
    assert_eq!(fs.lookup(9, "file.txt", &host()).err(), Some(FsError::NotFound));
}

#[test]
fn directory_attributes_are_synthesized() {
    let tree = FSNode::new(object(vec![])).unwrap();
    let fs = JsonFS::new(&tree, InodeIndex::new(&tree));
    let m = ready(fs.getattr(1, &host()).unwrap());
    assert_eq!(m.kind, FileKind::Directory);
    assert_eq!(m.perm, 0o755);
    assert_eq!(m.nlink, 2);
    assert_eq!(m.size, 0);
    assert_eq!(m.mtime, host().now);
    assert_eq!(m.atime, host().now);
}

#[test]
fn identities_are_contiguous_in_preorder() {
    let tree = FSNode::new(object(vec![
        ("a", object(vec![("a1", text("raw:1")), ("a2", object(vec![]))])),
        ("b", text("file:/tmp/b")),
        ("c", object(vec![("c1", text("https://example.org/c"))])),
    ]))
    .unwrap();
    let flat = tree.flatten();
    let names: Vec<&str> = flat.iter().map(|n| n.name.as_str()).collect();
    assert_eq!(names, vec!["", "a", "a1", "a2", "b", "c", "c1"]);
    for (i, n) in flat.iter().enumerate() {
        assert_eq!(n.inode, i as u64 + 1);
    }
    let index = InodeIndex::new(&tree);
    for n in flat.iter() {
        assert_eq!(index.get(n.inode).unwrap().name, n.name);
    }
    assert!(index.get(8).is_none());
}

#[test]
fn raw_read_windows() {
    let raw = RawFSFileType::new("hello".to_string());
    assert_eq!(raw.read(0, 5), b"hello".to_vec());
    assert_eq!(raw.read(1, 3), b"ell".to_vec());
    assert_eq!(raw.read(3, 10), b"lo".to_vec());
    assert_eq!(raw.read(5, 10), Vec::<u8>::new());
    assert_eq!(raw.read(100, 1), Vec::<u8>::new());
    assert_eq!(raw.read(2, 0), Vec::<u8>::new());
}

#[test]
fn raw_size_counts_bytes() {
    let raw = RawFSFileType::new("h\u{e9}".to_string());
    assert_eq!(raw.get_attributes(7, &host()).size, 3);
    assert_eq!(raw.read(1, 2), vec![0xc3, 0xa9]);
}

#[test]
fn readdir_pages_resume_at_cursor() {
    let tree = FSNode::new(object(vec![
        ("d", object(vec![("x", text("raw:1")), ("y", text("raw:2")), ("z", text("raw:3"))])),
    ]))
    .unwrap();
    let fs = JsonFS::new(&tree, InodeIndex::new(&tree));
    let whole = names(&fs.readdir(2, 0).unwrap());
    assert_eq!(whole.len(), 5);
    let first = fs.readdir(2, 0).unwrap();
    let cursor = first[1].0;
    assert_eq!(cursor, 2);
    let mut joined = names(&first[..2]);
    joined.extend(names(&fs.readdir(2, cursor).unwrap()));
    assert_eq!(joined, whole);
    assert!(fs.readdir(2, 5).unwrap().is_empty());
    assert!(fs.readdir(2, 99).unwrap().is_empty());
    assert_eq!(fs.readdir(3, 0).err(), Some(FsError::NotFound));
    assert_eq!(fs.readdir(42, 0).err(), Some(FsError::NotFound));
}

#[test]
fn read_of_directory_or_unknown_is_not_found() {
    let tree = FSNode::new(object(vec![("f", text("raw:abc"))])).unwrap();
    let fs = JsonFS::new(&tree, InodeIndex::new(&tree));
    assert!(matches!(fs.read(1, 0, 1), Err(FsError::NotFound)));
    assert!(matches!(fs.read(3, 0, 1), Err(FsError::NotFound)));
}

#[test]
fn local_and_http_backends_defer_to_host() {
    let tree = FSNode::new(object(vec![
        ("l", text("file:/etc/hosts")),
        ("h", text("http://example.org/x:1")),
    ]))
    .unwrap();
    let fs = JsonFS::new(&tree, InodeIndex::new(&tree));
    match fs.getattr(2, &host()).unwrap() {
        AttrPlan::StatLocal { ino, path } => {
            assert_eq!(ino, 2);
            assert_eq!(path, "/etc/hosts");
        }
        other => panic!("unexpected {:?}", other),
    }
    match fs.getattr(3, &host()).unwrap() {
        AttrPlan::HeadHttp { ino, address } => {
            assert_eq!(ino, 3);
            assert_eq!(address, "http://example.org/x:1");
        }
        other => panic!("unexpected {:?}", other),
    }
    match fs.read(2, 4, 16).unwrap() {
        ReadPlan::ReadLocal { path, offset, size } => {
            assert_eq!((path.as_str(), offset, size), ("/etc/hosts", 4, 16));
        }
        other => panic!("unexpected {:?}", other),
    }
    match fs.read(3, 1, 2).unwrap() {
        ReadPlan::FetchHttp { address, offset, size } => {
            assert_eq!((address.as_str(), offset, size), ("http://example.org/x:1", 1, 2));
        }
        other => panic!("unexpected {:?}", other),
    }
}

#[test]
fn descriptors_select_backends() {
    match FSEntry::create_file("raw:a:b".to_string()).unwrap() {
        FSEntry::File(FSFileType::Raw(r)) => assert_eq!(r.data, "a:b"),
        other => panic!("unexpected {:?}", other),
    }
    match FSEntry::create_file("file:".to_string()).unwrap() {
        FSEntry::File(FSFileType::Local(l)) => assert_eq!(l.file_path, ""),
        other => panic!("unexpected {:?}", other),
    }
    match FSEntry::create_file("https://h/p".to_string()).unwrap() {
        FSEntry::File(FSFileType::Http(h)) => assert_eq!(h.address, "https://h/p"),
        other => panic!("unexpected {:?}", other),
    }
    assert!(FSEntry::create_file("ftp://h/p".to_string()).is_err());
    assert!(FSEntry::create_file("".to_string()).is_err());
    assert!(FSEntry::create_file(":abc".to_string()).is_err());
}

#[test]
fn parse_file_type_by_type_name() {
    match FSFileType::parse_file_type("raw", "x".to_string(), "raw:x").unwrap() {
        FSFileType::Raw(r) => assert_eq!(r.data, "x"),
        other => panic!("unexpected {:?}", other),
    }
    match FSFileType::parse_file_type("http", "//h".to_string(), "http://h").unwrap() {
        FSFileType::Http(h) => assert_eq!(h.address, "http://h"),
        other => panic!("unexpected {:?}", other),
    }
    assert_eq!(FSFileType::parse_file_type("RAW", "x".to_string(), "RAW:x").err(), Some(DescriptorError));
}

#[test]
fn local_attributes_follow_stat() {
    let st = FileStatus {
        size: 1234,
        blocks: 8,
        atime: Timestamp { secs: 10, nanos: 1 },
        mtime: Timestamp { secs: 20, nanos: 2 },
        ctime: Timestamp { secs: 30, nanos: 3 },
        mode: 0o100640,
        nlink: 3,
        uid: 7,
        gid: 8,
        rdev: 0,
    };
    let m = LocalFSFileType::attributes_for_status(5, &st);
    assert_eq!(m.ino, 5);
    assert_eq!(m.size, 1234);
    assert_eq!(m.blocks, 8);
    assert_eq!(m.perm, 0o640);
    assert_eq!(m.nlink, 3);
    assert_eq!((m.uid, m.gid), (7, 8));
    assert_eq!(m.crtime, st.ctime);
    assert_eq!(m.mtime, st.mtime);
    assert_eq!(m.kind, FileKind::RegularFile);
}

#[test]
fn http_attributes_default_length_to_zero() {
    assert_eq!(HttpFSFileType::attributes_for_length(4, Some(77), &host()).size, 77);
    assert_eq!(HttpFSFileType::attributes_for_length(4, None, &host()).size, 0);
}

#[test]
fn http_read_response_slices_or_fails() {
    assert_eq!(HttpFSFileType::read_response(200, b"abcdef", 2, 3), Ok(b"cde".to_vec()));
    assert_eq!(HttpFSFileType::read_response(204, b"abcdef", 4, 10), Ok(b"ef".to_vec()));
    assert_eq!(HttpFSFileType::read_response(200, b"abc", 10, 3), Ok(Vec::new()));
    assert_eq!(HttpFSFileType::read_response(404, b"abcdef", 0, 3), Err(FsError::IoError));
    assert_eq!(HttpFSFileType::read_response(500, b"", 0, 3), Err(FsError::IoError));
}

#[test]
fn walk_edge_cases() {
    let tree = FSNode::new(object(vec![("a", object(vec![("b", text("raw:x"))]))])).unwrap();
    assert_eq!(tree.walk("//a///b/".to_string()).unwrap().inode, 3);
    assert_eq!(tree.walk("/./a/./b".to_string()).unwrap().inode, 3);
    assert_eq!(tree.walk("./a".to_string()).unwrap().inode, 2);
    assert_eq!(tree.walk("x/a".to_string()).unwrap().inode, 2);
    assert_eq!(tree.walk("".to_string()).unwrap().inode, 1);
    assert!(tree.walk("/a/../a".to_string()).is_none());
    assert!(tree.walk("/a/b/c".to_string()).is_none());
    assert!(tree.walk("/nope".to_string()).is_none());
}

#[test]
fn host_context_keeps_clock() {
    let now = Timestamp { secs: 3, nanos: 4 };
    let h = HostContext::capture(now);
    assert_eq!(h.now, now);
}

#[test]
fn hand_built_tree_flattens_in_preorder() {
    let tree = FSNode {
        inode: 1,
        name: String::new(),
        parent: None,
        entry: FSEntry::Dir(vec![
            FSNode {
                inode: 2,
                name: "x".to_string(),
                parent: Some(1),
                entry: FSEntry::File(FSFileType::Raw(RawFSFileType::new("1".to_string()))),
            },
            FSNode { inode: 3, name: "y".to_string(), parent: Some(1), entry: FSEntry::Dir(vec![]) },
        ]),
    };
    let flat = tree.flatten();
    let ids: Vec<u64> = flat.iter().map(|n| n.inode).collect();
    assert_eq!(ids, vec![1, 2, 3]);
}

use json_fuse_fs::raw::RawFSFileType;
use json_fuse_fs::{FSEntry, FSFileType, FSNode, Flatten, InodeIndex, ManifestValue};

fn manifest_of(v: serde_json::Value) -> ManifestValue {
    match v {
        serde_json::Value::Object(m) => {
            ManifestValue::Object(m.into_iter().map(|(k, v)| (k, manifest_of(v))).collect())
        }
        serde_json::Value::String(s) => ManifestValue::Text(s),
        _ => ManifestValue::Other,
    }
}

fn assert_file_name(e: &FSNode, name: &str) {
    if let FSNode { name: n, entry: FSEntry::File(_), .. } = e {
        assert_eq!(n, name)
    } else {
        panic!("FSNode.entry is not a FSEntry::File")
    }
}

fn assert_file_local_file_path(e: &FSNode, file_name: &str) {
    if let FSNode { entry: FSEntry::File(FSFileType::Local(loc)), .. } = e {
        assert_eq!(loc.file_path, file_name);
    } else {
        panic!("FSNode.entry is not a FSEntry::File(FSFileType::Local(_))")
    }
}

fn assert_file_raw_data(e: &FSNode, data: &str) {
    if let FSNode { entry: FSEntry::File(FSFileType::Raw(raw)), .. } = e {
        assert_eq!(raw.data, data);
    } else {
        panic!("FSNode.entry is not a FSEntry::File(FSFileType::Raw(_))")
    }
}

fn assert_dir_name(e: &FSNode, name: &str) {
    if let FSNode { name: n, entry: FSEntry::Dir(_), .. } = e {
        assert_eq!(n, name)
    } else {
        panic!("FSNode.entry is not a FSEntry::Dir(_)")
    }
}

fn nested_structure() -> FSNode {
    FSNode {
        inode: 1,
        name: String::new(),
        parent: None,
        entry: FSEntry::Dir(vec![FSNode {
            inode: 2,
            name: String::from("bla"),
            parent: Some(1),
            entry: FSEntry::Dir(vec![FSNode {
                inode: 3,
                name: "file.txt".to_string(),
                parent: Some(2),
                entry: FSEntry::File(FSFileType::Raw(RawFSFileType::new("abc".to_string()))),
            }]),
        }]),
    }
}

#[test]
fn walk_to_root() {
    let fs_tree = nested_structure();
    let found = fs_tree.walk("/".to_string()).unwrap();

    assert_dir_name(found, "");
}

#[test]
fn walk_to_file() {
    let structure = FSNode {
        inode: 1,
        name: String::new(),
        parent: None,
        entry: FSEntry::Dir(vec![FSNode {
            inode: 2,
            name: "file.txt".to_string(),
            parent: Some(1),
            entry: FSEntry::File(FSFileType::Raw(RawFSFileType::new("abc".to_string()))),
        }]),
    };

    let found = structure.walk("/file.txt".to_string()).unwrap();

    assert_file_name(found, "file.txt");
}

#[test]
fn walk_to_dir() {
    let structure = FSNode {
        inode: 1,
        name: String::new(),
        parent: None,
        entry: FSEntry::Dir(vec![
            FSNode {
                inode: 2,
                name: "file.txt".to_string(),
                parent: Some(1),
                entry: FSEntry::File(FSFileType::Raw(RawFSFileType::new("abc".to_string()))),
            },
            FSNode {
                inode: 3,
                name: String::from("bla"),
                parent: Some(1),
                entry: FSEntry::Dir(vec![]),
            },
        ]),
    };

    let found = structure.walk("/bla".to_string()).unwrap();

    assert_dir_name(found, "bla");
}

#[test]
fn walk_to_nested() {
    let fs_tree = nested_structure();

    let found = fs_tree.walk("/bla/file.txt".to_string()).unwrap();

    assert_file_name(found, "file.txt");
}

#[test]
fn flatten() {
    let fs_tree = nested_structure();

    let found: Vec<&FSNode> = fs_tree.flatten();

    assert_eq!(found.len(), 3);

    let root = found[0];
    assert_dir_name(root, "");

    let bla = found[1];
    assert_dir_name(bla, "bla");

    let file = found[2];

    assert_file_name(file, "file.txt");
}

#[test]
fn load_raw_file_type() {
    let json = r#"
            {
                "file.txt": "raw:abc"
            }"#;

    let result = FSNode::new(manifest_of(serde_json::from_str(json).unwrap()));
    assert!(result.is_ok());

    let fs_tree = result.unwrap();
    let inode_map = InodeIndex::new(&fs_tree);

    assert_dir_name(fs_tree.walk("/".to_string()).unwrap(), "");
    assert_file_name(fs_tree.walk("/file.txt".to_string()).unwrap(), "file.txt");
    assert_file_raw_data(fs_tree.walk("/file.txt".to_string()).unwrap(), "abc");

    let root_from_inode = inode_map.get(1).unwrap();
    assert_dir_name(root_from_inode, "");

    let file_from_inode = inode_map.get(2).unwrap();
    assert_file_name(file_from_inode, "file.txt");
}

#[test]
fn load_local_file_type() {
    let json = r#"
            {
                "file.txt": "file:/my_file.txt"
            }"#;

    let result = FSNode::new(manifest_of(serde_json::from_str(json).unwrap()));
    assert!(result.is_ok());

    let fs_tree = result.unwrap();

    assert_dir_name(fs_tree.walk("/".to_string()).unwrap(), "");
    assert_file_name(fs_tree.walk("/file.txt".to_string()).unwrap(), "file.txt");
    assert_file_local_file_path(fs_tree.walk("/file.txt".to_string()).unwrap(), "/my_file.txt");
}

#[test]
fn load_nested() {
    let json = r#"
            {
                "file.txt": "file:/my_file.txt",
                "nested": {
                    "nested.txt": "raw:cba"
                }
            }"#;

    let result = FSNode::new(manifest_of(serde_json::from_str(json).unwrap()));
    assert!(result.is_ok());

    let fs_tree = result.unwrap();

    assert_file_name(fs_tree.walk("/nested/nested.txt".to_string()).unwrap(), "nested.txt");

    let nested = fs_tree.walk("/nested".to_string()).unwrap();
    assert_dir_name(nested, "nested");
    assert_eq!(1, nested.parent.unwrap());
}

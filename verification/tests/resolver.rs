use wish_tree::{
    create_virtual_file_from_dir_entry, dir, mount_entry, text, walkdir, Content, CustomDirEntry,
    DirEntry, FailedVisit, MountSource, OutsideBase, Scan, VirtualFile,
};

fn entry(name: &str, source: MountSource) -> CustomDirEntry {
    CustomDirEntry::new(name.to_string(), source)
}

fn custom_dir(entries: Vec<CustomDirEntry>) -> MountSource {
    MountSource::CustomDir(entries)
}

fn found(base: &str, relative: &str, is_dir: bool) -> DirEntry {
    let path = if relative.is_empty() {
        base.to_string()
    } else {
        format!("{}/{}", base, relative)
    };
    DirEntry { path, is_dir }
}

fn paths(files: &Vec<VirtualFile>) -> Vec<String> {
    let mut all = Vec::new();
    for file in files {
        all.push(file.full_path().to_string());
    }
    all
}

fn foo_scan() -> Scan {
    Scan {
        is_dir: true,
        entries: vec![
            found("tests/foo", "", true),
            found("tests/foo", "a.txt", false),
            found("tests/foo", "b.log", false),
            found("tests/foo", "sub", true),
            found("tests/foo", "sub/c.txt", false),
        ],
    }
}

#[test]
fn entry_of_custom_dir_is_mounted_under_its_name() {
    let tree = custom_dir(vec![entry("sub", text("x"))]);
    let mut files = tree.walk_virtual_files(&Vec::new()).unwrap();
    assert_eq!(files.len(), 2);
    assert_eq!(files[0].full_path(), "");
    assert!(files[0].is_dir());
    assert_eq!(files[1].full_path(), "sub");
    assert!(!files[1].is_dir());
    assert_eq!(files.remove(1).reader(), Content::Text("x".to_string()));
}

#[test]
fn subtrees_come_in_entry_order_depth_first() {
    let tree = custom_dir(vec![
        entry("a", custom_dir(vec![entry("x", text("1")), entry("y", text("2"))])),
        entry("b", text("3")),
        entry("c", custom_dir(vec![entry("z", custom_dir(vec![entry("deep", text("4"))]))])),
    ]);
    let files = tree.walk_virtual_files(&Vec::new()).unwrap();
    assert_eq!(paths(&files), vec!["", "a", "a/x", "a/y", "b", "c", "c/z", "c/z/deep"]);
    let dirs: Vec<bool> = files.iter().map(|f| f.is_dir()).collect();
    assert_eq!(dirs, vec![true, true, false, false, false, true, true, false]);
}

#[test]
fn mounts_are_walked_in_pre_order() {
    let tree = custom_dir(vec![
        entry("docs", custom_dir(vec![entry("a.txt", text("A"))])),
        entry("notes.txt", text("hi")),
    ]);
    let mounts = tree.walk_mounts();
    let points: Vec<&str> = mounts.iter().map(|m| m.full_path()).collect();
    assert_eq!(points, vec!["", "docs", "docs/a.txt", "notes.txt"]);
    assert!(matches!(mounts[0].wish(), MountSource::CustomDir(_)));
    assert!(matches!(mounts[1].wish(), MountSource::CustomDir(_)));
    assert!(matches!(mounts[2].wish(), MountSource::TextContent(_)));
    assert!(matches!(mounts[3].wish(), MountSource::TextContent(_)));
}

#[test]
fn walk_recursive_starts_at_the_given_mount_point() {
    let tree = custom_dir(vec![entry("leaf", text(""))]);
    let mounts = tree.walk_recursive("top".to_string());
    let points: Vec<&str> = mounts.iter().map(|m| m.full_path()).collect();
    assert_eq!(points, vec!["top", "top/leaf"]);
}

#[test]
fn colliding_entries_are_both_emitted() {
    let tree = custom_dir(vec![entry("same", text("first")), entry("same", text("second"))]);
    let mut files = tree.walk_virtual_files(&Vec::new()).unwrap();
    assert_eq!(paths(&files), vec!["", "same", "same"]);
    assert_eq!(files.remove(2).reader(), Content::Text("second".to_string()));
    assert_eq!(files.remove(1).reader(), Content::Text("first".to_string()));
}

#[test]
fn text_resolves_to_one_file_at_the_mount_point() {
    let mut files = text("hello").resolve_virtual_files("greeting".to_string(), &Scan::missing()).unwrap();
    assert_eq!(files.len(), 1);
    assert_eq!(files[0].full_path(), "greeting");
    assert!(!files[0].is_dir());
    assert_eq!(files.remove(0).reader(), Content::Text("hello".to_string()));
}

#[test]
fn custom_dir_resolves_to_the_directory_alone() {
    let tree = custom_dir(vec![entry("child", text("x"))]);
    let mut files = tree.resolve_virtual_files("here".to_string(), &Scan::missing()).unwrap();
    assert_eq!(files.len(), 1);
    assert_eq!(files[0].full_path(), "here");
    assert!(files[0].is_dir());
    assert_eq!(files.remove(0).reader(), Content::Empty);
}

#[test]
fn copy_of_a_plain_file_is_one_file_that_reads_it() {
    let source = MountSource::from("README.md");
    let scan = Scan { is_dir: false, entries: vec![found("README.md", "", false)] };
    let mut files = source.resolve_virtual_files("dist/README.md".to_string(), &scan).unwrap();
    assert_eq!(files.len(), 1);
    assert_eq!(files[0].full_path(), "dist/README.md");
    assert!(!files[0].is_dir());
    assert_eq!(files.remove(0).reader(), Content::File("README.md".to_string()));
}

#[test]
fn copy_of_a_missing_path_is_one_file_that_reads_it() {
    let source = MountSource::from("nowhere");
    let mut files = source.resolve_virtual_files("x".to_string(), &Scan::missing()).unwrap();
    assert_eq!(paths(&files), vec!["x"]);
    assert_eq!(files.remove(0).reader(), Content::File("nowhere".to_string()));
}

#[test]
fn copy_of_a_directory_mirrors_every_entry() {
    let source = MountSource::CopyFromPath("tests/foo".to_string());
    let mut files = source.resolve_virtual_files("sources".to_string(), &foo_scan()).unwrap();
    assert_eq!(
        paths(&files),
        vec!["sources/", "sources/a.txt", "sources/b.log", "sources/sub", "sources/sub/c.txt"]
    );
    let dirs: Vec<bool> = files.iter().map(|f| f.is_dir()).collect();
    assert_eq!(dirs, vec![true, false, false, true, false]);
    assert_eq!(files.remove(4).reader(), Content::File("tests/foo/sub/c.txt".to_string()));
    assert_eq!(files.remove(3).reader(), Content::Empty);
    assert_eq!(files.remove(1).reader(), Content::File("tests/foo/a.txt".to_string()));
}

#[test]
fn file_set_resolves_to_exactly_the_matching_entries() {
    let set = dir("tests/foo").include_pattern("**/*.txt").unwrap().build().unwrap();
    let source = MountSource::from(set);
    let mut files = source.resolve_virtual_files(String::new(), &foo_scan()).unwrap();
    assert_eq!(paths(&files), vec!["a.txt", "sub/c.txt"]);
    assert!(!files[0].is_dir());
    assert!(!files[1].is_dir());
    assert_eq!(files.remove(1).reader(), Content::File("tests/foo/sub/c.txt".to_string()));
    assert_eq!(files.remove(0).reader(), Content::File("tests/foo/a.txt".to_string()));
}

#[test]
fn file_set_may_select_a_file_without_its_directory() {
    let set = dir("tests/foo").include_pattern("sub/*.txt").unwrap().build().unwrap();
    let tree = custom_dir(vec![entry("doc", MountSource::from(set))]);
    let files = tree.walk_virtual_files(&vec![Scan::missing(), foo_scan()]).unwrap();
    assert_eq!(paths(&files), vec!["", "doc/sub/c.txt"]);
}

#[test]
fn file_set_selects_directories_that_match() {
    let set = dir("tests/foo").include_pattern("sub").unwrap().build().unwrap();
    let files = MountSource::from(set).resolve_virtual_files("m".to_string(), &foo_scan()).unwrap();
    assert_eq!(paths(&files), vec!["m/sub"]);
    assert!(files[0].is_dir());
}

#[test]
fn file_set_ignores_whether_its_base_is_a_directory() {
    let set = dir("tests/foo").include_pattern("*.log").unwrap().build().unwrap();
    let mut scan = foo_scan();
    scan.is_dir = false;
    let files = MountSource::from(set).resolve_virtual_files("m".to_string(), &scan).unwrap();
    assert_eq!(paths(&files), vec!["m/b.log"]);
}

#[test]
fn file_set_without_patterns_resolves_to_nothing() {
    let set = dir("tests/foo").build().unwrap();
    let files = MountSource::from(set).resolve_virtual_files("m".to_string(), &foo_scan()).unwrap();
    assert!(files.is_empty());
}

#[test]
fn scans_belong_to_mounts_by_position() {
    let tree = custom_dir(vec![
        entry("README.md", MountSource::from("README.md")),
        entry("sources", MountSource::from("tests/foo".to_string())),
    ]);
    let scans = vec![
        Scan::missing(),
        Scan { is_dir: false, entries: vec![found("README.md", "", false)] },
        foo_scan(),
    ];
    let files = tree.walk_virtual_files(&scans).unwrap();
    assert_eq!(
        paths(&files),
        vec![
            "",
            "README.md",
            "sources/",
            "sources/a.txt",
            "sources/b.log",
            "sources/sub",
            "sources/sub/c.txt"
        ]
    );
}

#[test]
fn a_mount_without_a_scan_has_found_nothing() {
    let set = dir("tests/foo").include_pattern("**/*.txt").unwrap().build().unwrap();
    let tree = custom_dir(vec![
        entry("copy", MountSource::from("tests/foo")),
        entry("doc", MountSource::from(set)),
    ]);
    let mut files = tree.walk_virtual_files(&Vec::new()).unwrap();
    assert_eq!(paths(&files), vec!["", "copy"]);
    assert_eq!(files.remove(1).reader(), Content::File("tests/foo".to_string()));
}

#[test]
fn scanned_path_names_what_reads_the_file_system() {
    let set = dir("base").build().unwrap();
    assert_eq!(MountSource::from("some/path").scanned_path(), Some("some/path"));
    assert_eq!(MountSource::from(set).scanned_path(), Some("base"));
    assert_eq!(text("x").scanned_path(), None);
    assert_eq!(custom_dir(Vec::new()).scanned_path(), None);
}

#[test]
fn walkdir_takes_over_a_walk_that_could_be_read() {
    let visits = vec![
        Some(found("b", "", true)),
        Some(found("b", "one", false)),
        Some(found("b", "two", false)),
    ];
    assert_eq!(
        walkdir(visits),
        Ok(vec![found("b", "", true), found("b", "one", false), found("b", "two", false)])
    );
    assert_eq!(walkdir(Vec::new()), Ok(Vec::new()));
}

#[test]
fn walkdir_fails_on_the_first_visit_that_could_not_be_read() {
    let visits = vec![
        Some(found("b", "", true)),
        None,
        Some(found("b", "one", false)),
        None,
        Some(found("b", "two", false)),
    ];
    assert_eq!(walkdir(visits), Err(FailedVisit { position: 1 }));
    assert_eq!(walkdir(vec![None]), Err(FailedVisit { position: 0 }));
    assert_eq!(
        walkdir(vec![Some(found("b", "", true)), Some(found("b", "x", false)), None]),
        Err(FailedVisit { position: 2 })
    );
}

#[test]
fn dir_entry_becomes_a_virtual_file_below_the_mount_point() {
    let entry = found("base", "sub/c.txt", false);
    let file = create_virtual_file_from_dir_entry(&entry, "mnt", "base").unwrap();
    assert_eq!(file.full_path(), "mnt/sub/c.txt");
    assert!(!file.is_dir());
    assert_eq!(file.reader(), Content::File("base/sub/c.txt".to_string()));
    let dir = create_virtual_file_from_dir_entry(&found("base", "sub", true), "mnt", "base");
    let dir = dir.unwrap();
    assert_eq!(dir.full_path(), "mnt/sub");
    assert!(dir.is_dir());
    assert_eq!(dir.reader(), Content::Empty);
    let root = create_virtual_file_from_dir_entry(&found("base", "", true), "", "base").unwrap();
    assert_eq!(root.full_path(), "");
}

#[test]
fn dir_entry_outside_its_base_is_an_error() {
    let entry = found("elsewhere", "c.txt", false);
    assert_eq!(
        create_virtual_file_from_dir_entry(&entry, "mnt", "base"),
        Err(OutsideBase { path: "elsewhere/c.txt".to_string(), base_dir: "base".to_string() })
    );
    let sibling = found("base2", "c.txt", false);
    assert!(create_virtual_file_from_dir_entry(&sibling, "mnt", "base").is_err());
}

#[test]
fn mount_entry_joins_the_relative_path_onto_the_mount_point() {
    let entry = found("base", "sub/c.txt", false);
    let file = mount_entry(&entry, "sub/c.txt", "mnt");
    assert_eq!(file.full_path(), "mnt/sub/c.txt");
    assert_eq!(file.reader(), Content::File("base/sub/c.txt".to_string()));
    let dir = mount_entry(&found("base", "sub", true), "sub", "");
    assert_eq!(dir.full_path(), "sub");
    assert!(dir.is_dir());
}

#[test]
fn resolution_fails_on_the_first_entry_outside_the_base() {
    let scan = Scan {
        is_dir: true,
        entries: vec![
            found("tests/foo", "", true),
            found("tests/foo", "a.txt", false),
            found("other", "x.txt", false),
            found("tests/foo", "b.log", false),
            found("third", "y.txt", false),
        ],
    };
    let outside =
        OutsideBase { path: "other/x.txt".to_string(), base_dir: "tests/foo".to_string() };
    let copy = MountSource::from("tests/foo");
    assert_eq!(copy.resolve_virtual_files("m".to_string(), &scan), Err(outside.clone()));
    let set = dir("tests/foo").include_pattern("*.log").unwrap().build().unwrap();
    let set = MountSource::from(set);
    assert_eq!(set.resolve_virtual_files("m".to_string(), &scan), Err(outside.clone()));
    let tree = custom_dir(vec![entry("t", text("x")), entry("c", copy), entry("s", set)]);
    let scans = vec![Scan::missing(), Scan::missing(), scan.clone(), foo_scan()];
    assert_eq!(tree.walk_virtual_files(&scans), Err(outside.clone()));
    assert_eq!(tree.render_to_fs("out", &scans), Err(outside.clone()));
    assert_eq!(tree.render_to_zip(&scans), Err(outside.clone()));
    assert_eq!(tree.render_to_tar_gz(&scans), Err(outside));
    let mut plain = scan;
    plain.is_dir = false;
    assert!(MountSource::from("tests/foo").resolve_virtual_files("m".to_string(), &plain).is_ok());
}

#[test]
fn virtual_file_constructors_and_getters() {
    let file = VirtualFile::file("a/b".to_string(), Content::Text("t".to_string()));
    assert_eq!(file.full_path(), "a/b");
    assert!(!file.is_dir());
    assert_eq!(file.reader(), Content::Text("t".to_string()));
    let dir = VirtualFile::dir("a".to_string());
    assert_eq!(dir.full_path(), "a");
    assert!(dir.is_dir());
    assert_eq!(dir.reader(), Content::Empty);
}

#[test]
fn content_bytes_are_the_utf8_of_the_text() {
    assert_eq!(Content::Text("hello".to_string()).bytes(), Some(vec![104, 101, 108, 108, 111]));
    assert_eq!(Content::Text("é".to_string()).bytes(), Some(vec![0xc3, 0xa9]));
    assert_eq!(Content::Text(String::new()).bytes(), Some(Vec::new()));
    assert_eq!(Content::Empty.bytes(), Some(Vec::new()));
    assert_eq!(Content::File("x".to_string()).bytes(), None);
}

#[test]
fn mount_source_clone_is_a_deep_copy() {
    let set = dir("tests/foo").include_pattern("**/*.txt").unwrap().build().unwrap();
    let tree = custom_dir(vec![
        entry("a", custom_dir(vec![entry("x", text("1"))])),
        entry("doc", MountSource::from(set)),
        entry("copy", MountSource::from("p")),
    ]);
    let copy = tree.clone();
    let scans = vec![Scan::missing(), Scan::missing(), Scan::missing(), foo_scan()];
    assert_eq!(copy.walk_virtual_files(&scans), tree.walk_virtual_files(&scans));
    assert_eq!(
        paths(&copy.walk_virtual_files(&scans).unwrap()),
        vec!["", "a", "a/x", "doc/a.txt", "doc/sub/c.txt", "copy"]
    );
}

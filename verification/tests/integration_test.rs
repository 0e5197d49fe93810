use wish_tree::{dir, text, CustomDirEntry, DirEntry, FsAction, MountSource, Scan, TarRecord, ZipRecord};

fn entry(name: &str, source: MountSource) -> CustomDirEntry {
    CustomDirEntry::new(name.to_string(), source)
}

fn found(path: &str, is_dir: bool) -> DirEntry {
    DirEntry { path: path.to_string(), is_dir }
}

#[test]
fn basics() {
    // Given
    let dir = MountSource::CustomDir(vec![
        entry(
            "dist",
            MountSource::CustomDir(vec![
                entry("README.md", MountSource::from("README.md")),
                entry("sources", MountSource::from("tests/foo/b")),
                entry(
                    "doc",
                    MountSource::from_builder(
                        dir("tests/foo").include_pattern("**/*.txt").unwrap(),
                    )
                    .unwrap(),
                ),
                entry("empty-dir", MountSource::CustomDir(Vec::new())),
                entry("empty-file", text("")),
            ]),
        ),
        entry("notes.txt", text("Some notes")),
    ]);
    let foo = Scan {
        is_dir: true,
        entries: vec![
            found("tests/foo", true),
            found("tests/foo/a.txt", false),
            found("tests/foo/b", true),
            found("tests/foo/b/c.txt", false),
            found("tests/foo/b/d.md", false),
        ],
    };
    let foo_b = Scan {
        is_dir: true,
        entries: vec![
            found("tests/foo/b", true),
            found("tests/foo/b/c.txt", false),
            found("tests/foo/b/d.md", false),
        ],
    };
    let readme = Scan { is_dir: false, entries: vec![found("README.md", false)] };
    let scans = vec![
        Scan::missing(),
        Scan::missing(),
        readme,
        foo_b,
        foo,
        Scan::missing(),
        Scan::missing(),
        Scan::missing(),
    ];
    // When
    let foo_dir = "target/foo-test";
    let fs = dir.render_to_fs(foo_dir, &scans).unwrap();
    let zip = dir.render_to_zip(&scans).unwrap();
    let tar_gz = dir.render_to_tar_gz(&scans).unwrap();
    // Then
    let expected = [
        ("dist", true),
        ("dist/README.md", false),
        ("dist/sources/", true),
        ("dist/sources/c.txt", false),
        ("dist/sources/d.md", false),
        ("dist/doc/a.txt", false),
        ("dist/doc/b/c.txt", false),
        ("dist/empty-dir", true),
        ("dist/empty-file", false),
        ("notes.txt", false),
    ];
    assert_eq!(fs.len(), expected.len() + 1);
    assert_eq!(fs[0], FsAction::CreateDirAll { path: "target/foo-test/".to_string() });
    assert_eq!(zip.len(), expected.len());
    assert_eq!(tar_gz.len(), expected.len());
    for (i, (path, is_dir)) in expected.iter().enumerate() {
        match &fs[i + 1] {
            FsAction::CreateDirAll { path: p } => {
                assert!(*is_dir);
                assert_eq!(p, &format!("target/foo-test/{}", path));
            }
            FsAction::WriteFile { path: p, .. } => {
                assert!(!*is_dir);
                assert_eq!(p, &format!("target/foo-test/{}", path));
            }
        }
        match &zip[i] {
            ZipRecord::Directory { path: p, .. } => {
                assert!(*is_dir);
                assert_eq!(p, path);
            }
            ZipRecord::File { path: p, .. } => {
                assert!(!*is_dir);
                assert_eq!(p, path);
            }
        }
        match &tar_gz[i] {
            TarRecord::Directory { path: p, .. } => {
                assert!(*is_dir);
                assert_eq!(p, path);
            }
            TarRecord::File { path: p, .. } => {
                assert!(!*is_dir);
                assert_eq!(p, path);
            }
        }
    }
}

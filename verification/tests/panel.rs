use junkyard_vfs::panel::{
    arrive, assemble, describe, enter, find_named, list_files, with_parent, Data, File,
};
use junkyard_vfs::text::{decimal, order_texts, same_text};
use junkyard_vfs::vfs::File as OpenFile;
use junkyard_vfs::{AbsolutePath, Kind, OpenOptions, Stat, Vfs, VfsError, VfsResult};
use std::cmp::Ordering;

/// A provider with a fixed tree: `/docs` holds a file, a folder and an
/// entry that cannot be examined; `/locked` cannot be listed.
struct Fixed;

impl Vfs for Fixed {
    fn open(&self, _path: &AbsolutePath, _open_options: OpenOptions) -> VfsResult<Box<dyn OpenFile>> {
        Err(VfsError::NotImplemented)
    }

    fn unlink(&self, _path: &AbsolutePath) -> VfsResult<()> {
        Err(VfsError::NotImplemented)
    }

    fn stat(&self, path: &AbsolutePath) -> VfsResult<Stat> {
        match path.as_str() {
            "/" | "/docs" | "/docs/sub" | "/locked" => Ok(Stat::new(Kind::Folder, 0)),
            "/docs/a.txt" => Ok(Stat::new(Kind::File, 12)),
            "/docs/broken" => Err(VfsError::PermissionDenied),
            _ => Err(VfsError::NotFound),
        }
    }

    fn read_dir(&self, path: &AbsolutePath) -> VfsResult<Vec<AbsolutePath>> {
        match path.as_str() {
            "/" => Ok(vec![AbsolutePath::new("/docs"), AbsolutePath::new("/locked")]),
            "/docs" => Ok(vec![
                AbsolutePath::new("/docs/a.txt"),
                AbsolutePath::new("/docs/sub"),
                AbsolutePath::new("/docs/broken"),
            ]),
            "/docs/sub" => Ok(vec![]),
            "/locked" => Err(VfsError::PermissionDenied),
            _ => Err(VfsError::NotFound),
        }
    }

    fn create_dir(&self, _path: &AbsolutePath) -> VfsResult<()> {
        Err(VfsError::NotImplemented)
    }

    fn create_dir_all(&self, _path: &AbsolutePath) -> VfsResult<()> {
        Err(VfsError::NotImplemented)
    }

    fn rename(&self, _from: &AbsolutePath, _to: &AbsolutePath) -> VfsResult<()> {
        Err(VfsError::NotImplemented)
    }
}

fn shown(files: &[File]) -> Vec<(String, String, Kind, u64)> {
    files
        .iter()
        .map(|f| (f.name().to_string(), f.full_path().as_str().to_string(), f.kind(), f.len()))
        .collect()
}

fn row(name: &str, path: &str, kind: Kind, len: u64) -> (String, String, Kind, u64) {
    (name.to_string(), path.to_string(), kind, len)
}

#[test]
fn list_no_folder() {
    let provider = Fixed;
    let path = AbsolutePath::new("/is_not_folder");
    assert!(matches!(provider.read_dir(&path), Err(VfsError::NotFound)));
    assert!(matches!(list_files(&provider, &path), Err(VfsError::NotFound)));
}

#[test]
fn listing_of_the_root_has_no_parent_row() {
    let files = list_files(&Fixed, &AbsolutePath::new("/")).unwrap();
    assert_eq!(
        shown(&files),
        [row("docs", "/docs", Kind::Folder, 0), row("locked", "/locked", Kind::Folder, 0)]
    );
}

#[test]
fn listing_of_a_folder_starts_with_the_parent_row() {
    let files = list_files(&Fixed, &AbsolutePath::new("/docs")).unwrap();
    assert_eq!(
        shown(&files),
        [
            row("..", "/docs", Kind::Folder, 0),
            row("a.txt", "/docs/a.txt", Kind::File, 12),
            row("sub", "/docs/sub", Kind::Folder, 0),
            row("broken", "/docs/broken", Kind::Unknown, 0),
        ]
    );
    let files = list_files(&Fixed, &AbsolutePath::new("/docs/sub")).unwrap();
    assert_eq!(shown(&files), [row("..", "/docs/sub", Kind::Folder, 0)]);
}

#[test]
fn listing_fails_where_the_folder_cannot_be_listed() {
    assert!(matches!(
        list_files(&Fixed, &AbsolutePath::new("/locked")),
        Err(VfsError::PermissionDenied)
    ));
}

#[test]
fn rows_from_entries() {
    let file = File::of_entry(AbsolutePath::new("/a/b"), Some(Stat::new(Kind::Link, 3)));
    assert_eq!(shown(&[file]), [row("b", "/a/b", Kind::Link, 3)]);
    let file = File::of_entry(AbsolutePath::new("/a/b"), None);
    assert_eq!(shown(&[file]), [row("b", "/a/b", Kind::Unknown, 0)]);
    let file = File::parent_of(&AbsolutePath::new("/a/b"));
    assert_eq!(shown(&[file.clone()]), [row("..", "/a/b", Kind::Folder, 0)]);
    assert!(file.is_up());
    let file = File::new("n".to_string(), AbsolutePath::new("/x"), Kind::File, 1);
    assert_eq!(shown(&[file.clone()]), [row("n", "/x", Kind::File, 1)]);
    assert!(!file.is_up());

    let dir = AbsolutePath::new("/d");
    assert_eq!(
        shown(&with_parent(&dir, vec![file.clone()])),
        [row("..", "/d", Kind::Folder, 0), row("n", "/x", Kind::File, 1)]
    );
    assert_eq!(
        shown(&with_parent(&AbsolutePath::new("/"), vec![file])),
        [row("n", "/x", Kind::File, 1)]
    );
}

#[test]
fn columns() {
    let file = File::new("notes.txt".to_string(), AbsolutePath::new("/notes.txt"), Kind::File, 1204);
    assert_eq!(file.to_column(Data::Name), "notes.txt");
    assert_eq!(file.to_column(Data::Kind), "file");
    assert_eq!(file.to_column(Data::Len), "1204");
    let folder = File::parent_of(&AbsolutePath::new("/a"));
    assert_eq!(folder.to_column(Data::Name), "..");
    assert_eq!(folder.to_column(Data::Kind), "folder");
    assert_eq!(folder.to_column(Data::Len), "0");
    assert_eq!(Data::Name.label(), "Name");
    assert_eq!(Data::Kind.label(), "Kind");
    assert_eq!(Data::Len.label(), "Len");
    assert_eq!(Data::Len.as_ref(), "Len");
}

#[test]
fn decimal_digits() {
    assert_eq!(decimal(0), "0");
    assert_eq!(decimal(7), "7");
    assert_eq!(decimal(10), "10");
    assert_eq!(decimal(1234567890), "1234567890");
    assert_eq!(decimal(u64::MAX), "18446744073709551615");
    for n in [9u64, 99, 100, 101, 4096, 1 << 40] {
        assert_eq!(decimal(n), n.to_string());
    }
}

#[test]
fn text_order_is_that_of_a_dictionary() {
    assert_eq!(order_texts("", ""), 0);
    assert_eq!(order_texts("", "a"), -1);
    assert_eq!(order_texts("a", ""), 1);
    assert_eq!(order_texts("abc", "abc"), 0);
    assert_eq!(order_texts("abc", "abd"), -1);
    assert_eq!(order_texts("abd", "abc"), 1);
    assert_eq!(order_texts("ab", "abc"), -1);
    assert_eq!(order_texts("abc", "ab"), 1);
    assert_eq!(order_texts("Z", "a"), -1);
    for (a, b) in [("é", "z"), ("zebra", "Émile"), ("a/b", "a.b"), ("日本", "日本語")] {
        let expected = match a.cmp(b) {
            Ordering::Less => -1,
            Ordering::Equal => 0,
            Ordering::Greater => 1,
        };
        assert_eq!(order_texts(a, b), expected, "{:?} {:?}", a, b);
    }
    assert!(same_text("héllo", "héllo"));
    assert!(!same_text("héllo", "hello"));
    assert!(!same_text("a", "ab"));
    assert!(same_text("", ""));
}

#[test]
fn rows_compare_by_column() {
    let small = File::new("b".to_string(), AbsolutePath::new("/b"), Kind::File, 1);
    let large = File::new("a".to_string(), AbsolutePath::new("/a"), Kind::Folder, 9);
    assert_eq!(small.compare(&large, Data::Name), Ordering::Greater);
    assert_eq!(large.compare(&small, Data::Name), Ordering::Less);
    assert_eq!(small.compare(&large, Data::Kind), Ordering::Less);
    assert_eq!(large.compare(&small, Data::Kind), Ordering::Greater);
    assert_eq!(small.compare(&large, Data::Len), Ordering::Less);
    assert_eq!(large.compare(&small, Data::Len), Ordering::Greater);
    for column in [Data::Name, Data::Kind, Data::Len] {
        assert_eq!(small.compare(&small.clone(), column), Ordering::Equal);
        assert_eq!(small.order(&small.clone(), column), 0);
    }
    assert_eq!(small.order(&large, Data::Name), 1);
    assert_eq!(small.order(&large, Data::Len), -1);
}

#[test]
fn destination_of_a_row() {
    let folder = File::new("sub".to_string(), AbsolutePath::new("/docs/sub"), Kind::Folder, 0);
    assert_eq!(folder.destination(), Some(AbsolutePath::new("/docs/sub")));
    let parent = File::parent_of(&AbsolutePath::new("/docs/sub"));
    assert_eq!(parent.destination(), Some(AbsolutePath::new("/docs")));
    let at_root = File::parent_of(&AbsolutePath::new("/"));
    assert_eq!(at_root.destination(), Some(AbsolutePath::new("/")));
    for kind in [Kind::File, Kind::Link, Kind::Unknown] {
        let file = File::new("x".to_string(), AbsolutePath::new("/x"), kind, 0);
        assert_eq!(file.destination(), None);
    }
}

#[test]
fn entering_a_folder_lists_it() {
    let folder = File::new("docs".to_string(), AbsolutePath::new("/docs"), Kind::Folder, 0);
    let navigation = enter(&Fixed, &folder).unwrap();
    assert_eq!(navigation.items.len(), 4);
    assert_eq!(navigation.selected, None);
    assert!(navigation.failure.is_none());
}

#[test]
fn coming_up_selects_the_folder_left() {
    let parent = File::parent_of(&AbsolutePath::new("/docs/sub"));
    let navigation = enter(&Fixed, &parent).unwrap();
    assert_eq!(
        shown(&navigation.items)[0],
        row("..", "/docs", Kind::Folder, 0)
    );
    assert_eq!(navigation.selected, Some(2));
    assert_eq!(navigation.items[2].name(), "sub");

    let parent = File::parent_of(&AbsolutePath::new("/locked"));
    let navigation = enter(&Fixed, &parent).unwrap();
    assert_eq!(navigation.selected, Some(1));

    let parent = File::parent_of(&AbsolutePath::new("/"));
    let navigation = enter(&Fixed, &parent).unwrap();
    assert_eq!(navigation.selected, None);
    assert_eq!(navigation.items.len(), 2);
}

#[test]
fn folder_that_cannot_be_listed_shows_the_parent_row_alone() {
    let locked = File::new("locked".to_string(), AbsolutePath::new("/locked"), Kind::Folder, 0);
    let navigation = enter(&Fixed, &locked).unwrap();
    assert_eq!(shown(&navigation.items), [row("..", "/locked", Kind::Folder, 0)]);
    assert!(matches!(navigation.failure, Some(VfsError::PermissionDenied)));
    assert_eq!(navigation.selected, None);

    let file = File::new("a.txt".to_string(), AbsolutePath::new("/docs/a.txt"), Kind::File, 12);
    assert!(enter(&Fixed, &file).is_none());
}

#[test]
fn arriving_with_a_given_listing() {
    let parent = File::parent_of(&AbsolutePath::new("/a/b"));
    let listing = vec![
        File::parent_of(&AbsolutePath::new("/a")),
        File::new("b".to_string(), AbsolutePath::new("/a/x"), Kind::File, 0),
        File::new("b".to_string(), AbsolutePath::new("/a/b"), Kind::Folder, 0),
    ];
    let navigation = arrive(&parent, Ok(listing.clone()));
    assert_eq!(navigation.selected, Some(1));
    assert_eq!(find_named(&listing, "b"), Some(1));
    assert_eq!(find_named(&listing, ".."), Some(0));
    assert_eq!(find_named(&listing, "c"), None);

    let navigation = arrive(&parent, Err(VfsError::Other("gone".to_string())));
    assert_eq!(shown(&navigation.items), [row("..", "/a/b", Kind::Folder, 0)]);
    assert_eq!(navigation.selected, None);
    assert!(matches!(navigation.failure, Some(VfsError::Other(m)) if m == "gone"));
}

#[test]
fn assembling_a_listing_from_given_entries() {
    let entries = vec![
        (AbsolutePath::new("/d/z"), Some(Stat::new(Kind::File, 5))),
        (AbsolutePath::new("/d/a"), None),
        (AbsolutePath::new("/d/m"), Some(Stat::new(Kind::Folder, 0))),
    ];
    assert_eq!(
        shown(&assemble(&AbsolutePath::new("/d"), &entries)),
        [
            row("..", "/d", Kind::Folder, 0),
            row("z", "/d/z", Kind::File, 5),
            row("a", "/d/a", Kind::Unknown, 0),
            row("m", "/d/m", Kind::Folder, 0),
        ]
    );
    assert_eq!(
        shown(&assemble(&AbsolutePath::new("/"), &entries))[0],
        row("z", "/d/z", Kind::File, 5)
    );
    assert!(assemble(&AbsolutePath::new("/"), &vec![]).is_empty());
    assert_eq!(
        shown(&assemble(&AbsolutePath::new("/d"), &vec![])),
        [row("..", "/d", Kind::Folder, 0)]
    );
}

#[test]
fn describing_entries_keeps_those_that_cannot_be_examined() {
    let children = vec![
        AbsolutePath::new("/docs/a.txt"),
        AbsolutePath::new("/docs/broken"),
        AbsolutePath::new("/nowhere"),
    ];
    let described = describe(&Fixed, children.clone());
    let paths: Vec<&AbsolutePath> = described.iter().map(|(path, _)| path).collect();
    assert_eq!(paths, children.iter().collect::<Vec<_>>());
    let stats: Vec<Option<Stat>> = described.iter().map(|(_, stat)| *stat).collect();
    assert_eq!(stats, [Some(Stat::new(Kind::File, 12)), None, None]);
}

use junkyard_vfs::{
    AbsolutePath, DirEntry, File, Kind, OpenOptions, Seek, Stat, Vfs, VfsError, VfsResult,
};

fn dispatch(_vfs: &dyn Vfs) {}

struct Nothing;

impl Vfs for Nothing {
    fn open(&self, _path: &AbsolutePath, _open_options: OpenOptions) -> VfsResult<Box<dyn File>> {
        Err(VfsError::NotImplemented)
    }

    fn unlink(&self, _path: &AbsolutePath) -> VfsResult<()> {
        Err(VfsError::NotImplemented)
    }

    fn stat(&self, _path: &AbsolutePath) -> VfsResult<Stat> {
        Err(VfsError::NotFound)
    }

    fn read_dir(&self, _path: &AbsolutePath) -> VfsResult<Vec<AbsolutePath>> {
        Ok(vec![])
    }

    fn create_dir(&self, _path: &AbsolutePath) -> VfsResult<()> {
        Err(VfsError::NotImplemented)
    }

    fn create_dir_all(&self, _path: &AbsolutePath) -> VfsResult<()> {
        Err(VfsError::NotImplemented)
    }

    fn rename(&self, _from: &AbsolutePath, _to: &AbsolutePath) -> VfsResult<()> {
        Err(VfsError::NotImplemented)
    }
}

#[test]
fn object_safe() {
    dispatch(&Nothing);
}

#[test]
fn open_options_presets() {
    let o = OpenOptions::create();
    assert_eq!(
        (o.create, o.read, o.write, o.truncate, o.append),
        (true, false, true, false, false)
    );
    let o = OpenOptions::read();
    assert_eq!(
        (o.create, o.read, o.write, o.truncate, o.append),
        (false, true, false, false, false)
    );
    for create in [false, true] {
        let o = OpenOptions::truncate(create);
        assert_eq!(
            (o.create, o.read, o.write, o.truncate, o.append),
            (create, false, true, true, false)
        );
        let o = OpenOptions::append(create);
        assert_eq!(
            (o.create, o.read, o.write, o.truncate, o.append),
            (create, false, true, false, true)
        );
        let o = OpenOptions::read_write(create);
        assert_eq!(
            (o.create, o.read, o.write, o.truncate, o.append),
            (create, true, true, false, false)
        );
    }
    assert_eq!(OpenOptions::read(), OpenOptions::read());
    assert_ne!(OpenOptions::read(), OpenOptions::create());
}

#[test]
fn seek_targets() {
    assert_eq!(Seek::Start(7).resolve(3, 10), Some(7));
    assert_eq!(Seek::End(0).resolve(3, 10), Some(10));
    assert_eq!(Seek::End(-4).resolve(3, 10), Some(6));
    assert_eq!(Seek::End(-11).resolve(3, 10), None);
    assert_eq!(Seek::Current(5).resolve(3, 10), Some(8));
    assert_eq!(Seek::Current(-3).resolve(3, 10), Some(0));
    assert_eq!(Seek::Current(-4).resolve(3, 10), None);
    assert_eq!(Seek::Current(1).resolve(u64::MAX, 10), None);
    assert_eq!(Seek::Current(i64::MIN).resolve(1 << 63, 0), Some(0));
    assert_eq!(Seek::Current(i64::MIN).resolve((1 << 63) - 1, 0), None);
    assert_eq!(Seek::End(i64::MAX).resolve(0, u64::MAX - (i64::MAX as u64)), Some(u64::MAX));
}

#[test]
fn stat_holds_kind_and_size() {
    let stat = Stat::new(Kind::Link, 42);
    assert_eq!(stat.kind(), Kind::Link);
    assert_eq!(stat.size(), 42);
    assert_eq!(stat.kind, Kind::Link);
    assert_eq!(stat.size, 42);
}

#[test]
fn kind_names_and_order() {
    assert_eq!(Kind::File.as_str(), "file");
    assert_eq!(Kind::Folder.as_str(), "folder");
    assert_eq!(Kind::Link.as_str(), "link");
    assert_eq!(Kind::Unknown.as_str(), "unknown");
    assert!(Kind::File < Kind::Folder);
    assert!(Kind::Folder < Kind::Link);
    assert!(Kind::Link < Kind::Unknown);
    assert_eq!(
        [Kind::File.rank(), Kind::Folder.rank(), Kind::Link.rank(), Kind::Unknown.rank()],
        [0, 1, 2, 3]
    );
}

#[test]
fn classification_asks_in_order() {
    assert_eq!(Kind::classify(true, true, true), Kind::Folder);
    assert_eq!(Kind::classify(true, false, false), Kind::Folder);
    assert_eq!(Kind::classify(false, true, true), Kind::Link);
    assert_eq!(Kind::classify(false, false, true), Kind::File);
    assert_eq!(Kind::classify(false, false, false), Kind::Unknown);
    assert_eq!(Stat::describe(false, false, true, 9), Stat::new(Kind::File, 9));
    assert_eq!(Stat::describe(true, false, false, 4096), Stat::new(Kind::Folder, 4096));
}

#[test]
fn dir_entry_wraps_a_path() {
    let entry = DirEntry::new(AbsolutePath::new("/a/b/../c"));
    assert_eq!(entry.name(), "c");
    assert_eq!(entry.path().as_str(), "/a/c");
    assert_eq!(entry, DirEntry::new(AbsolutePath::new("/a/c")));
    assert_eq!(DirEntry::new(AbsolutePath::new("/")).name(), "/");
}

#[test]
fn error_messages() {
    assert_eq!(VfsError::NotFound.message(), "not found");
    assert_eq!(VfsError::PermissionDenied.message(), "permission denied");
    assert_eq!(VfsError::NotImplemented.message(), "not implemented");
    assert_eq!(VfsError::UnknownHandle.message(), "unknown handle");
    assert_eq!(VfsError::Other("disk".to_string()).message(), "disk");
    assert_eq!(VfsError::PluginLoad("bad magic".to_string()).message(), "bad magic");
    assert_eq!(VfsError::GuestCall("trap".to_string()).message(), "trap");
}

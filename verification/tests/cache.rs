use junkyard_vfs::cache::{ArtifactCache, CACHE_FOLDER, ENTRY_PREFIX};
use junkyard_vfs::loader::{Outcome, Stage};
use junkyard_vfs::sandbox::{Grants, Sandbox};
use junkyard_vfs::{AbsolutePath, VfsError};

#[test]
fn entry_is_named_by_the_digest() {
    let cache = ArtifactCache::new(AbsolutePath::new("/home/me/.junkyard"));
    let entry = cache.locate(b"hello");
    assert_eq!(
        entry.as_str(),
        "/home/me/.junkyard/plugin_vfs_2cf24dba5fb0a30e26e83b2ac5b9e29e1b161e5c1fa7425e73043362938b9824"
    );
    assert_eq!(entry.parent(), *cache.root());
    let empty = cache.locate(b"");
    assert_eq!(
        empty.name(),
        "plugin_vfs_e3b0c44298fc1c149afbf4c8996fb92427ae41e4649b934ca495991b7852b855"
    );
}

#[test]
fn equal_bytes_give_the_same_entry() {
    let cache = ArtifactCache::new(AbsolutePath::new("/cache"));
    let bytes: Vec<u8> = (0..=255).collect();
    assert_eq!(cache.locate(&bytes), cache.locate(&bytes.clone()));
    let mut other = bytes.clone();
    other[17] ^= 1;
    assert_ne!(cache.locate(&bytes), cache.locate(&other));
}

#[test]
fn entry_for_a_given_digest() {
    let cache = ArtifactCache::new(AbsolutePath::new("/"));
    assert_eq!(cache.entry("abc").as_str(), "/plugin_vfs_abc");
    assert_eq!(cache.entry("").as_str(), "/plugin_vfs_");
    let cache = ArtifactCache::new(AbsolutePath::new("/var/cache"));
    assert_eq!(cache.entry("00ff").as_str(), "/var/cache/plugin_vfs_00ff");
    assert_eq!(ENTRY_PREFIX, "plugin_vfs_");
}

#[test]
fn cache_under_a_home_directory() {
    let cache = ArtifactCache::under_home(&AbsolutePath::new("/home/me"));
    assert_eq!(cache.root().as_str(), "/home/me/.junkyard");
    assert_eq!(CACHE_FOLDER, ".junkyard");
    let cache = ArtifactCache::under_home(&AbsolutePath::new("/"));
    assert_eq!(cache.root().as_str(), "/.junkyard");
}

fn run(outcomes: Vec<Outcome>) -> (Vec<Stage>, Result<Stage, VfsError>) {
    let mut visited = vec![Stage::ReadBytecode];
    let mut stage = Stage::ReadBytecode;
    for outcome in outcomes {
        match stage.advance(outcome) {
            Ok(next) => {
                visited.push(next);
                stage = next;
            }
            Err(e) => return (visited, Err(e)),
        }
    }
    (visited, Ok(stage))
}

#[test]
fn first_load_compiles_and_persists() {
    let (visited, end) = run(vec![
        Outcome::Done,
        Outcome::Absent,
        Outcome::Done,
        Outcome::Done,
        Outcome::Done,
        Outcome::Done,
        Outcome::Done,
    ]);
    assert_eq!(
        visited,
        [
            Stage::ReadBytecode,
            Stage::LookUp,
            Stage::Compile,
            Stage::Persist,
            Stage::Confine,
            Stage::Instantiate,
            Stage::Initialize,
            Stage::Ready,
        ]
    );
    assert_eq!(end.unwrap(), Stage::Ready);
}

#[test]
fn second_load_skips_compilation() {
    let (visited, end) = run(vec![
        Outcome::Done,
        Outcome::Done,
        Outcome::Done,
        Outcome::Done,
        Outcome::Done,
        Outcome::Done,
    ]);
    assert_eq!(
        visited,
        [
            Stage::ReadBytecode,
            Stage::LookUp,
            Stage::Restore,
            Stage::Confine,
            Stage::Instantiate,
            Stage::Initialize,
            Stage::Ready,
        ]
    );
    assert!(!visited.contains(&Stage::Compile));
    assert!(!visited.contains(&Stage::Persist));
    assert_eq!(end.unwrap(), Stage::Ready);
}

#[test]
fn corrupt_entry_is_compiled_anew() {
    assert_eq!(
        Stage::Restore.advance(Outcome::Failed("bad header".to_string())).unwrap(),
        Stage::Compile
    );
    assert_eq!(Stage::Restore.advance(Outcome::Absent).unwrap(), Stage::Compile);
}

#[test]
fn failed_write_is_not_fatal() {
    assert_eq!(
        Stage::Persist.advance(Outcome::Failed("read-only disk".to_string())).unwrap(),
        Stage::Confine
    );
    assert_eq!(Stage::Persist.advance(Outcome::Absent).unwrap(), Stage::Confine);
    assert_eq!(Stage::Persist.advance(Outcome::Done).unwrap(), Stage::Confine);
}

#[test]
fn load_failures_carry_their_message() {
    for stage in [
        Stage::ReadBytecode,
        Stage::LookUp,
        Stage::Compile,
        Stage::Confine,
        Stage::Instantiate,
        Stage::Initialize,
    ] {
        let result = stage.advance(Outcome::Failed("boom".to_string()));
        assert!(matches!(result, Err(VfsError::PluginLoad(m)) if m == "boom"), "{:?}", stage);
    }
    for stage in [
        Stage::ReadBytecode,
        Stage::Compile,
        Stage::Confine,
        Stage::Instantiate,
        Stage::Initialize,
    ] {
        assert!(matches!(stage.advance(Outcome::Absent), Err(VfsError::PluginLoad(_))));
    }
    assert_eq!(Stage::Ready.advance(Outcome::Done).unwrap(), Stage::Ready);
    assert_eq!(Stage::Ready.advance(Outcome::Absent).unwrap(), Stage::Ready);
    assert_eq!(Stage::Ready.advance(Outcome::Failed("late".to_string())).unwrap(), Stage::Ready);
}

#[test]
fn sandbox_grants_reading_only() {
    let sandbox = Sandbox::new(&AbsolutePath::new("/srv/data"));
    assert_eq!(sandbox.root().as_str(), "/srv/data");
    assert_eq!(sandbox.mount_point().as_str(), "/");
    assert_eq!(
        sandbox.grants(),
        Grants {
            read_dirs: true,
            mutate_dirs: false,
            read_files: true,
            write_files: false,
            stdio: true,
            arguments: true,
            network: false,
        }
    );
}

#[test]
fn sandbox_maps_guest_paths_under_the_root() {
    let sandbox = Sandbox::new(&AbsolutePath::new("/srv/data"));
    assert_eq!(sandbox.host_path(&AbsolutePath::new("/")).as_str(), "/srv/data");
    assert_eq!(sandbox.host_path(&AbsolutePath::new("/a/b")).as_str(), "/srv/data/a/b");
    // Nothing the guest can write leads out of the root.
    assert_eq!(
        sandbox.host_path(&AbsolutePath::new("/../../etc/passwd")).as_str(),
        "/srv/data/etc/passwd"
    );

    assert_eq!(
        sandbox.guest_path(&AbsolutePath::new("/srv/data/a/b")),
        Some(AbsolutePath::new("/a/b"))
    );
    assert_eq!(sandbox.guest_path(&AbsolutePath::new("/srv/data")), Some(AbsolutePath::new("/")));
    assert_eq!(sandbox.guest_path(&AbsolutePath::new("/srv")), None);
    assert_eq!(sandbox.guest_path(&AbsolutePath::new("/srv/database")), None);
    assert_eq!(sandbox.guest_path(&AbsolutePath::new("/etc/passwd")), None);

    let whole = Sandbox::new(&AbsolutePath::new("/"));
    assert_eq!(whole.host_path(&AbsolutePath::new("/x")).as_str(), "/x");
    assert_eq!(whole.guest_path(&AbsolutePath::new("/x")), Some(AbsolutePath::new("/x")));
}

use junkyard_vfs::{Handle, HandleTable, Ownership, VfsError};

#[test]
fn first_free_slot_is_reused() {
    let mut table: HandleTable<&str> = HandleTable::new();
    let a = table.allocate("a", Ownership::Owned).unwrap();
    let b = table.allocate("b", Ownership::Borrowed).unwrap();
    let c = table.allocate("c", Ownership::Owned).unwrap();
    assert_eq!((a.id(), b.id(), c.id()), (0, 1, 2));
    assert_eq!(a.ownership, Ownership::Owned);
    assert_eq!(b.ownership, Ownership::Borrowed);
    assert!(a.is_owned());
    assert!(!b.is_owned());

    assert_eq!(table.release(b), Some("b"));
    assert_eq!(table.release(a), Some("a"));
    let d = table.allocate("d", Ownership::Owned).unwrap();
    let e = table.allocate("e", Ownership::Owned).unwrap();
    let f = table.allocate("f", Ownership::Owned).unwrap();
    assert_eq!((d.id(), e.id(), f.id()), (0, 1, 3));
    assert_eq!(table.resolve(c).ok(), Some(&"c"));
    assert_eq!(table.resolve(d).ok(), Some(&"d"));
    assert_eq!(table.resolve(e).ok(), Some(&"e"));
    assert_eq!(table.resolve(f).ok(), Some(&"f"));
}

#[test]
fn resolve_after_release_fails() {
    let mut table: HandleTable<String> = HandleTable::new();
    let h = table.allocate("value".to_string(), Ownership::Owned).unwrap();
    assert!(table.is_live(h));
    assert_eq!(table.resolve(h).ok().map(|s| s.as_str()), Some("value"));
    assert_eq!(table.release(h), Some("value".to_string()));
    assert!(!table.is_live(h));
    assert!(matches!(table.resolve(h), Err(VfsError::UnknownHandle)));
}

#[test]
fn second_release_is_a_no_op() {
    let mut table: HandleTable<u8> = HandleTable::new();
    let keep = table.allocate(1, Ownership::Owned).unwrap();
    let gone = table.allocate(2, Ownership::Owned).unwrap();
    assert_eq!(table.release(gone), Some(2));
    assert_eq!(table.release(gone), None);
    assert_eq!(table.release(gone), None);
    assert_eq!(table.resolve(keep).ok(), Some(&1));
}

#[test]
fn unknown_handles_fail_gracefully() {
    let mut table: HandleTable<u8> = HandleTable::new();
    assert!(matches!(table.resolve(Handle::owned(0)), Err(VfsError::UnknownHandle)));
    assert!(matches!(
        table.resolve(Handle::borrowed(u32::MAX)),
        Err(VfsError::UnknownHandle)
    ));
    assert_eq!(table.release(Handle::owned(17)), None);
    let h = table.allocate(5, Ownership::Owned).unwrap();
    assert_eq!(h.id(), 0);
    assert!(matches!(table.resolve(Handle::owned(1)), Err(VfsError::UnknownHandle)));
}

#[test]
fn live_handles_never_alias() {
    let mut table: HandleTable<u32> = HandleTable::new();
    let mut live: Vec<(Handle, u32)> = Vec::new();
    let mut next = 100;
    for round in 0..50u32 {
        let h = table.allocate(next, Ownership::Owned).unwrap();
        assert!(live.iter().all(|(other, _)| other.id() != h.id()));
        live.push((h, next));
        next += 1;
        if round % 3 == 0 {
            let (h, value) = live.remove((round as usize * 7) % live.len());
            assert_eq!(table.release(h), Some(value));
        }
        for (h, value) in &live {
            assert_eq!(table.resolve(*h).ok(), Some(value));
        }
    }
}

#[test]
fn handle_constructors() {
    assert_eq!(Handle::owned(3), Handle { id: 3, ownership: Ownership::Owned });
    assert_eq!(Handle::borrowed(3), Handle { id: 3, ownership: Ownership::Borrowed });
    assert_ne!(Handle::owned(3), Handle::borrowed(3));
}

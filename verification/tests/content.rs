use wadup_core::content::{Content, ContentData, ContentStore, DepthLimitExceeded};
use wadup_core::shared_buffer::SharedBuffer;

fn root(bytes: &[u8], name: &str) -> Content {
    Content::new_root(SharedBuffer::from_vec(bytes.to_vec()), name.to_string())
}

#[test]
fn root_content_has_depth_zero_and_no_parent() {
    let content = root(b"abc", "a.txt");
    assert_eq!(content.depth, 0);
    assert_eq!(content.parent_uuid, None);
    assert_eq!(content.filename, "a.txt");
    assert!(matches!(&content.data, ContentData::Owned(b) if b.as_slice() == b"abc"));
    let fixed = Content::root_with_uuid(17, SharedBuffer::from_vec(vec![]), "e".to_string());
    assert_eq!(fixed.uuid, 17);
    assert_eq!(fixed.depth, 0);
}

#[test]
fn fresh_identifiers_differ() {
    let a = root(b"", "a");
    let b = root(b"", "b");
    assert_ne!(a.uuid, b.uuid);
    // version 4, variant 1
    assert_eq!((a.uuid >> 76) & 0xf, 4);
    assert_eq!((a.uuid >> 62) & 0x3, 2);
}

#[test]
fn subcontent_lies_one_level_below_its_parent() {
    let parent = root(b"0123456789", "p");
    let data = ContentData::Borrowed { parent_uuid: parent.uuid, offset: 2, length: 3 };
    let child = Content::new_subcontent(&parent, data, "c".to_string(), 5).unwrap();
    assert_eq!(child.depth, 1);
    assert_eq!(child.parent_uuid, Some(parent.uuid));
    assert_eq!(child.filename, "c");
    assert_ne!(child.uuid, parent.uuid);
    let grandchild = Content::subcontent_with_uuid(
        9,
        &child,
        ContentData::Owned(SharedBuffer::from_vec(vec![1])),
        "g".to_string(),
        2,
    )
    .unwrap();
    assert_eq!(grandchild.depth, 2);
    assert_eq!(grandchild.uuid, 9);
    assert_eq!(grandchild.parent_uuid, Some(child.uuid));
}

#[test]
fn subcontent_beyond_the_maximum_depth_is_refused() {
    let parent = root(b"x", "p");
    let owned = || ContentData::Owned(SharedBuffer::from_vec(vec![]));
    assert_eq!(
        Content::new_subcontent(&parent, owned(), "c".to_string(), 0).err(),
        Some(DepthLimitExceeded { limit: 0 })
    );
    let child = Content::new_subcontent(&parent, owned(), "c".to_string(), 1).unwrap();
    assert_eq!(child.depth, 1);
    assert_eq!(
        Content::new_subcontent(&child, owned(), "g".to_string(), 1).err(),
        Some(DepthLimitExceeded { limit: 1 })
    );
    assert_eq!(
        Content::subcontent_with_uuid(1, &child, owned(), "g".to_string(), 1).err(),
        Some(DepthLimitExceeded { limit: 1 })
    );
}

#[test]
fn store_resolves_owned_and_borrowed_content() {
    let mut store = ContentStore::new();
    let parent = root(b"0123456789", "p");
    assert!(store.get(&parent.uuid).is_none());
    let resolved = store.resolve(&parent).unwrap();
    assert_eq!(resolved.as_slice(), b"0123456789");
    store.insert(parent.uuid, resolved);
    assert_eq!(store.get(&parent.uuid).unwrap().as_slice(), b"0123456789");

    let slice = |offset, length| Content {
        uuid: 1,
        data: ContentData::Borrowed { parent_uuid: parent.uuid, offset, length },
        filename: "s".to_string(),
        parent_uuid: Some(parent.uuid),
        depth: 1,
    };
    assert_eq!(store.resolve(&slice(2, 3)).unwrap().as_slice(), b"234");
    assert_eq!(store.resolve(&slice(0, 10)).unwrap().as_slice(), b"0123456789");
    assert_eq!(store.resolve(&slice(10, 0)).unwrap().len(), 0);
    assert!(store.resolve(&slice(8, 3)).is_none());
    assert!(store.resolve(&slice(11, 0)).is_none());
    assert!(store.resolve(&slice(usize::MAX, 2)).is_none());

    let orphan = Content {
        uuid: 2,
        data: ContentData::Borrowed { parent_uuid: 12345, offset: 0, length: 0 },
        filename: "o".to_string(),
        parent_uuid: Some(12345),
        depth: 1,
    };
    assert!(store.resolve(&orphan).is_none());
}

#[test]
fn install_records_the_resolved_bytes_under_the_content() {
    let mut store = ContentStore::new();
    let parent = root(b"abcdef", "p");
    assert_eq!(store.install(&parent).unwrap().as_slice(), b"abcdef");
    let child = Content {
        uuid: 77,
        data: ContentData::Borrowed { parent_uuid: parent.uuid, offset: 1, length: 4 },
        filename: "c".to_string(),
        parent_uuid: Some(parent.uuid),
        depth: 1,
    };
    assert_eq!(store.install(&child).unwrap().as_slice(), b"bcde");
    assert_eq!(store.get(&77).unwrap().as_slice(), b"bcde");
    let grandchild = Content {
        uuid: 78,
        data: ContentData::Borrowed { parent_uuid: 77, offset: 1, length: 2 },
        filename: "g".to_string(),
        parent_uuid: Some(77),
        depth: 2,
    };
    assert_eq!(store.resolve(&grandchild).unwrap().as_slice(), b"cd");
    let broken = Content {
        uuid: 79,
        data: ContentData::Borrowed { parent_uuid: 77, offset: 3, length: 2 },
        filename: "b".to_string(),
        parent_uuid: Some(77),
        depth: 2,
    };
    assert!(store.install(&broken).is_none());
    assert!(store.get(&79).is_none());
}

#[test]
fn clones_share_the_same_values() {
    let parent = root(b"xyz", "p");
    let copy = parent.clone();
    assert_eq!(copy.uuid, parent.uuid);
    assert_eq!(copy.filename, "p");
    assert!(matches!(&copy.data, ContentData::Owned(b) if b.as_slice() == b"xyz"));
}

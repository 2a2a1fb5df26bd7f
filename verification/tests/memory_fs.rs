use wadup_core::memory_fs::{
    Entry, FsError, MemoryDirectory, MemoryFile, MemoryFilesystem, SeekFrom,
};

#[test]
fn test_memory_file() {
    let mut fs = MemoryFilesystem::new();
    let mut file = MemoryFile::with_data(&mut fs, b"Hello, World!".to_vec());

    let buf = file.read(&fs, 5).unwrap();
    assert_eq!(&buf[..], b"Hello");

    file.seek(&fs, SeekFrom::Start(0)).unwrap();
    file.write(&mut fs, b"Hi").unwrap();

    file.seek(&fs, SeekFrom::Start(0)).unwrap();
    let result = file.read_to_end(&fs).unwrap();
    assert_eq!(result, b"Hillo, World!");
}

#[test]
fn test_memory_filesystem() {
    let mut fs = MemoryFilesystem::new();

    fs.create_dir_all("/tmp").unwrap();
    fs.create_file("/data.bin", b"test data".to_vec()).unwrap();
    fs.create_file("/tmp/output.txt", b"output".to_vec()).unwrap();

    let mut file = fs.open_file("/data.bin").unwrap();
    let buf = file.read_to_end(&fs).unwrap();
    assert_eq!(buf, b"test data");
}

#[test]
fn read_returns_nothing_at_end_of_file() {
    let mut fs = MemoryFilesystem::new();
    let mut file = MemoryFile::with_data(&mut fs, vec![1, 2, 3]);
    assert_eq!(file.read(&fs, 10).unwrap(), vec![1, 2, 3]);
    assert_eq!(file.position, 3);
    assert_eq!(file.read(&fs, 10).unwrap(), Vec::<u8>::new());
    assert_eq!(file.read(&fs, 0).unwrap(), Vec::<u8>::new());
    assert_eq!(file.position, 3);
}

#[test]
fn write_extends_growable_file_with_zero_gap() {
    let mut fs = MemoryFilesystem::new();
    let mut file = MemoryFile::new(&mut fs);
    assert!(file.is_empty(&fs));
    assert_eq!(file.seek(&fs, SeekFrom::Start(3)).unwrap(), 3);
    assert_eq!(file.write(&mut fs, b"ab").unwrap(), 2);
    assert_eq!(file.len(&fs), 5);
    file.seek(&fs, SeekFrom::Start(0)).unwrap();
    assert_eq!(file.read_to_end(&fs).unwrap(), vec![0, 0, 0, b'a', b'b']);
}

#[test]
fn written_bytes_read_back_identically() {
    let mut fs = MemoryFilesystem::new();
    let mut file = MemoryFile::new(&mut fs);
    let payload: Vec<u8> = (0..=255u8).cycle().take(5000).collect();
    assert_eq!(file.write(&mut fs, &payload).unwrap(), 5000);
    assert_eq!(file.seek(&fs, SeekFrom::Start(0)).unwrap(), 0);
    assert_eq!(file.read(&fs, 5000).unwrap(), payload);
}

#[test]
fn write_to_read_only_file_is_denied() {
    let mut fs = MemoryFilesystem::new();
    let data = bytes::Bytes::from(vec![9u8, 8, 7]);
    let mut file = MemoryFile::with_readonly_data(&mut fs, data);
    assert!(file.is_read_only(&fs));
    assert_eq!(file.write(&mut fs, b"x"), Err(FsError::PermissionDenied));
    assert_eq!(file.truncate(&mut fs), Err(FsError::PermissionDenied));
    assert_eq!(file.read_to_end(&fs).unwrap(), vec![9, 8, 7]);
    assert!(file.flush().is_ok());
}

#[test]
fn seek_from_each_origin() {
    let mut fs = MemoryFilesystem::new();
    let mut file = MemoryFile::with_data(&mut fs, b"0123456789".to_vec());
    assert_eq!(file.seek(&fs, SeekFrom::Start(4)), Ok(4));
    assert_eq!(file.seek(&fs, SeekFrom::Current(3)), Ok(7));
    assert_eq!(file.seek(&fs, SeekFrom::Current(-2)), Ok(5));
    assert_eq!(file.seek(&fs, SeekFrom::End(-1)), Ok(9));
    assert_eq!(file.read(&fs, 5).unwrap(), b"9".to_vec());
    assert_eq!(file.seek(&fs, SeekFrom::End(5)), Ok(15));
}

#[test]
fn seek_to_negative_position_is_invalid() {
    let mut fs = MemoryFilesystem::new();
    let mut file = MemoryFile::with_data(&mut fs, b"abc".to_vec());
    file.seek(&fs, SeekFrom::Start(2)).unwrap();
    assert_eq!(file.seek(&fs, SeekFrom::Current(-3)), Err(FsError::InvalidInput));
    assert_eq!(file.seek(&fs, SeekFrom::End(-4)), Err(FsError::InvalidInput));
    assert_eq!(file.seek(&fs, SeekFrom::Start(u64::MAX)), Err(FsError::InvalidInput));
    assert_eq!(file.position, 2);
}

#[test]
fn each_handle_has_its_own_cursor_over_shared_storage() {
    let mut fs = MemoryFilesystem::new();
    fs.create_file("/shared.txt", b"abcdef".to_vec()).unwrap();
    let mut first = fs.open_file("/shared.txt").unwrap();
    let mut second = fs.open_file("/shared.txt").unwrap();
    assert_eq!(first.read(&fs, 2).unwrap(), b"ab".to_vec());
    assert_eq!(second.read(&fs, 3).unwrap(), b"abc".to_vec());
    first.write(&mut fs, b"XY").unwrap();
    assert_eq!(second.read(&fs, 3).unwrap(), b"Yef".to_vec());
    assert_eq!(fs.read_file("/shared.txt").unwrap(), b"abXYef".to_vec());
}

#[test]
fn duplicate_names_fail_with_exists() {
    let mut fs = MemoryFilesystem::new();
    let root = fs.root();
    root.create_file(&mut fs, "a", vec![1]).unwrap();
    assert_eq!(root.create_file(&mut fs, "a", vec![2]), Err(FsError::AlreadyExists));
    assert_eq!(root.create_dir(&mut fs, "a"), Err(FsError::AlreadyExists));
    root.create_dir(&mut fs, "d").unwrap();
    assert_eq!(root.create_dir(&mut fs, "d"), Err(FsError::AlreadyExists));
    assert_eq!(root.create_file(&mut fs, "d", vec![]), Err(FsError::AlreadyExists));
    assert_eq!(fs.read_file("/a").unwrap(), vec![1]);
}

#[test]
fn lookup_tells_files_from_directories() {
    let mut fs = MemoryFilesystem::new();
    let root = fs.root();
    root.create_file(&mut fs, "f", vec![]).unwrap();
    root.create_dir(&mut fs, "d").unwrap();
    assert!(matches!(root.lookup(&fs, "f"), Some(Entry::File(_))));
    assert!(matches!(root.lookup(&fs, "d"), Some(Entry::Directory(_))));
    assert_eq!(root.lookup(&fs, "missing"), None);
    assert_eq!(root.get_file(&fs, "d").unwrap_err(), FsError::InvalidInput);
    assert_eq!(root.get_file(&fs, "missing").unwrap_err(), FsError::NotFound);
    assert_eq!(root.get_dir(&fs, "f").unwrap_err(), FsError::InvalidInput);
    assert_eq!(root.get_dir(&fs, "missing").unwrap_err(), FsError::NotFound);
    assert!(root.get_dir(&fs, "d").is_ok());
}

#[test]
fn list_gives_entries_in_creation_order() {
    let mut fs = MemoryFilesystem::new();
    let root = fs.root();
    root.create_dir(&mut fs, "zeta").unwrap();
    root.create_file(&mut fs, "alpha", vec![]).unwrap();
    root.create_file(&mut fs, "mid", vec![]).unwrap();
    assert_eq!(
        root.list(&fs),
        vec![
            ("zeta".to_string(), true),
            ("alpha".to_string(), false),
            ("mid".to_string(), false)
        ]
    );
    root.remove(&mut fs, "alpha").unwrap();
    assert_eq!(root.list(&fs), vec![("zeta".to_string(), true), ("mid".to_string(), false)]);
    assert_eq!(root.remove(&mut fs, "alpha"), Err(FsError::NotFound));
}

#[test]
fn removed_file_is_gone_for_open_handles() {
    let mut fs = MemoryFilesystem::new();
    fs.create_file("/f", b"data".to_vec()).unwrap();
    let mut handle = fs.open_file("/f").unwrap();
    fs.remove_path("/f").unwrap();
    assert!(!handle.is_live(&fs));
    assert_eq!(handle.read(&fs, 4), Err(FsError::NotFound));
    assert_eq!(handle.write(&mut fs, b"x"), Err(FsError::NotFound));
    assert_eq!(handle.len(&fs), 0);
    assert_eq!(fs.open_file("/f").unwrap_err(), FsError::NotFound);
}

#[test]
fn path_resolution_walks_components() {
    let mut fs = MemoryFilesystem::new();
    fs.create_dir_all("/a/b/c").unwrap();
    fs.create_file("/a/b/c/leaf.txt", b"x".to_vec()).unwrap();
    fs.create_file("///a/b/top.txt", b"y".to_vec()).unwrap();
    assert_eq!(fs.read_file("a/b/c/leaf.txt").unwrap(), b"x".to_vec());
    assert_eq!(fs.read_file("/a/b/top.txt").unwrap(), b"y".to_vec());
    assert_eq!(fs.create_file("/a/missing/f", vec![]), Err(FsError::NotFound));
    assert_eq!(fs.create_file("/a/b/top.txt/f", vec![]), Err(FsError::InvalidInput));
    assert_eq!(fs.create_file("", vec![]), Err(FsError::InvalidInput));
    assert_eq!(fs.create_file("///", vec![]), Err(FsError::InvalidInput));
    assert_eq!(fs.open_file("/a/b").unwrap_err(), FsError::InvalidInput);
    assert_eq!(fs.open_file("/a/b/nothing").unwrap_err(), FsError::NotFound);
    assert_eq!(fs.open_file("/a//b/top.txt").unwrap_err(), FsError::NotFound);
}

#[test]
fn create_dir_all_keeps_existing_directories() {
    let mut fs = MemoryFilesystem::new();
    assert_eq!(fs.create_dir_all(""), Ok(()));
    fs.create_dir_all("/x/y").unwrap();
    fs.create_file("/x/y/f", b"1".to_vec()).unwrap();
    fs.create_dir_all("/x/y/z").unwrap();
    fs.create_dir_all("/x").unwrap();
    assert_eq!(fs.read_file("/x/y/f").unwrap(), b"1".to_vec());
    assert!(fs.get_dir("/x/y/z").is_ok());
    assert_eq!(fs.create_dir_all("/x/y/f/deeper"), Err(FsError::AlreadyExists));
    assert_eq!(fs.get_dir("").unwrap().id, fs.root().id);
    assert_eq!(fs.get_dir("/x/y/f").unwrap_err(), FsError::InvalidInput);
    assert_eq!(fs.get_dir("/nope").unwrap_err(), FsError::NotFound);
}

#[test]
fn set_data_bin_replaces_the_file_without_copying() {
    let mut fs = MemoryFilesystem::new();
    fs.create_file("/data.bin", Vec::new()).unwrap();
    let first = bytes::Bytes::from(b"first".to_vec());
    fs.set_data_bin(first.clone()).unwrap();
    assert_eq!(fs.read_file("/data.bin").unwrap(), b"first".to_vec());
    let mut handle = fs.open_file("/data.bin").unwrap();
    assert_eq!(handle.write(&mut fs, b"x"), Err(FsError::PermissionDenied));
    fs.set_data_bin(bytes::Bytes::from(b"second one".to_vec())).unwrap();
    assert_eq!(fs.read_file("/data.bin").unwrap(), b"second one".to_vec());
    assert_eq!(fs.root().list(&fs), vec![("data.bin".to_string(), false)]);
}

#[test]
fn set_data_bin_replaces_a_directory_of_that_name() {
    let mut fs = MemoryFilesystem::new();
    fs.create_dir_all("/data.bin").unwrap();
    fs.set_data_bin(bytes::Bytes::from(vec![1u8, 2])).unwrap();
    assert_eq!(fs.read_file("/data.bin").unwrap(), vec![1, 2]);
}

#[test]
fn take_file_bytes_removes_the_file() {
    let mut fs = MemoryFilesystem::new();
    fs.create_dir_all("/subcontent").unwrap();
    fs.create_file("/subcontent/data_0.bin", b"payload".to_vec()).unwrap();
    let taken = fs.take_file_bytes("/subcontent/data_0.bin").unwrap();
    assert_eq!(&taken[..], b"payload");
    assert_eq!(fs.open_file("/subcontent/data_0.bin").unwrap_err(), FsError::NotFound);
    assert_eq!(fs.take_file_bytes("/subcontent/data_0.bin").unwrap_err(), FsError::NotFound);
    assert_eq!(fs.take_file_bytes("/subcontent").unwrap_err(), FsError::InvalidInput);
    assert!(fs.get_dir("/subcontent").unwrap().list(&fs).is_empty());
}

#[test]
fn detached_directory_can_hold_files() {
    let mut fs = MemoryFilesystem::new();
    let dir = MemoryDirectory::new(&mut fs);
    dir.create_file(&mut fs, "inside", b"q".to_vec()).unwrap();
    let mut file = dir.get_file(&fs, "inside").unwrap();
    assert_eq!(file.read_to_end(&fs).unwrap(), b"q".to_vec());
    assert!(fs.root().list(&fs).is_empty());
    let stale = MemoryDirectory { id: 99 };
    assert_eq!(stale.create_file(&mut fs, "x", vec![]), Err(FsError::NotFound));
    assert!(stale.list(&fs).is_empty());
}

#[test]
fn truncate_empties_a_growable_file() {
    let mut fs = MemoryFilesystem::new();
    fs.create_file("/t", b"long contents".to_vec()).unwrap();
    let file = fs.open_file("/t").unwrap();
    file.truncate(&mut fs).unwrap();
    assert_eq!(fs.read_file("/t").unwrap(), Vec::<u8>::new());
}

//! An in-memory filesystem: a directory tree of files that are either
//! read-only views over shared bytes or growable buffers. The filesystem
//! owns all storage; files and directories are addressed through small
//! handles, and every open file handle carries its own cursor.

use crate::fs_model::{
    has_name, index_of_name, lemma_lookup_in_range, names_unique, read_at, seek_target, write_at,
    DirEntryView, FileView, FsView,
};
use crate::shared_buffer::{
    bytes_as_slice, bytes_contents, bytes_len, bytes_mut_as_slice, bytes_mut_contents,
    bytes_mut_freeze, bytes_mut_from_slice, bytes_mut_len, bytes_mut_new, bytes_mut_overwrite,
    bytes_mut_resize_zeroed,
};
use crate::text::{path_components, split_path, string_equal, views_of};
use bytes::{Bytes, BytesMut};
use vstd::pervasive::VecAdditionalExecFns;
use vstd::prelude::*;
use vstd::slice::{slice_subrange, slice_to_vec};

verus! {

/// Why a filesystem operation failed.
#[derive(Clone, Copy, Debug, PartialEq, Eq, Structural)]
pub enum FsError {
    /// A path component or entry does not exist.
    NotFound,
    /// The name is already taken in its directory.
    AlreadyExists,
    /// The path is empty, names the wrong kind of entry, or a position is
    /// out of range.
    InvalidInput,
    /// A write was attempted on a read-only file.
    PermissionDenied,
}

/// Where a seek is measured from.
#[derive(Clone, Copy, Debug)]
pub enum SeekFrom {
    /// An absolute position.
    Start(u64),
    /// An offset from the handle's cursor.
    Current(i64),
    /// An offset from the end of the file.
    End(i64),
}

/// The storage of one file.
#[derive(Debug)]
pub enum MemoryFileData {
    /// A read-only view over shared bytes.
    ReadOnly(Bytes),
    /// A growable buffer.
    ReadWrite(BytesMut),
}

impl View for MemoryFileData {
    type V = FileView;

    open spec fn view(&self) -> FileView {
        match *self {
            MemoryFileData::ReadOnly(b) => FileView { bytes: bytes_contents(b), read_only: true },
            MemoryFileData::ReadWrite(b) => FileView {
                bytes: bytes_mut_contents(b),
                read_only: false,
            },
        }
    }
}

/// What a directory entry points at: a slot of the file table or of the
/// directory table.
#[derive(Clone, Copy, Debug, PartialEq, Eq, Structural)]
pub enum Entry {
    File(usize),
    Directory(usize),
}

#[derive(Debug)]
struct DirEntry {
    name: String,
    entry: Entry,
}

/// The filesystem: a table of file storage and a table of directories.
/// A removed file gives up its storage but keeps its slot, so that a handle
/// never comes to name another file.
#[derive(Debug)]
pub struct MemoryFilesystem {
    files: Vec<Option<MemoryFileData>>,
    dirs: Vec<Vec<DirEntry>>,
}

spec fn file_slot_view(slot: Option<MemoryFileData>) -> Option<FileView> {
    match slot {
        Some(data) => Some(data@),
        None => None,
    }
}

spec fn entries_view(entries: Vec<DirEntry>) -> Seq<DirEntryView> {
    Seq::new(
        entries@.len(),
        |i: int| DirEntryView { name: entries@[i].name@, entry: entries@[i].entry },
    )
}

impl View for MemoryFilesystem {
    type V = FsView;

    closed spec fn view(&self) -> FsView {
        FsView {
            files: Seq::new(self.files@.len(), |i: int| file_slot_view(self.files@[i])),
            dirs: Seq::new(self.dirs@.len(), |d: int| entries_view(self.dirs@[d])),
        }
    }
}

/// A handle on an open file: the file's slot and this handle's cursor.
#[derive(Clone, Copy, Debug)]
pub struct MemoryFile {
    pub id: usize,
    pub position: usize,
}

/// A handle on a directory.
#[derive(Clone, Copy, Debug)]
pub struct MemoryDirectory {
    pub id: usize,
}

impl MemoryFilesystem {
    /// The filesystem's tables are well formed.
    pub open spec fn wf(&self) -> bool {
        self@.wf()
    }

    /// A filesystem holding an empty root directory and no files.
    pub fn new() -> (fs: Self)
        ensures
            fs.wf(),
            fs@ == (FsView { files: Seq::empty(), dirs: seq![Seq::empty()] }),
    {
        let mut dirs: Vec<Vec<DirEntry>> = Vec::new();
        dirs.push(Vec::new());
        let fs = MemoryFilesystem { files: Vec::new(), dirs };
        proof {
            assert(fs@.dirs.len() == 1);
            assert(fs@.dirs[0] =~= Seq::<DirEntryView>::empty());
            assert(fs@.dirs =~= seq![Seq::<DirEntryView>::empty()]);
            assert(fs@.files =~= Seq::<Option<FileView>>::empty());
        }
        fs
    }

    /// A handle on the root directory.
    pub fn root(&self) -> (dir: MemoryDirectory)
        ensures
            dir.id == 0,
    {
        MemoryDirectory { id: 0 }
    }

    fn add_file(&mut self, data: MemoryFileData) -> (id: usize)
        requires
            old(self).wf(),
        ensures
            final(self).wf(),
            id == old(self)@.files.len(),
            final(self)@ == old(self)@.with_new_file(data@),
    {
        let id: usize = self.files.len();
        self.files.push(Some(data));
        proof {
            assert(self@.files =~= old(self)@.files.push(Some(data@)));
            assert(self@.dirs =~= old(self)@.dirs);
        }
        id
    }
}

impl MemoryFile {
    /// Allocates an empty growable file that no directory lists, and opens it.
    pub fn new(fs: &mut MemoryFilesystem) -> (file: Self)
        requires
            old(fs).wf(),
        ensures
            final(fs).wf(),
            file.id == old(fs)@.files.len(),
            file.position == 0,
            final(fs)@ == old(fs)@.with_new_file(
                FileView { bytes: Seq::empty(), read_only: false },
            ),
    {
        let id = fs.add_file(MemoryFileData::ReadWrite(bytes_mut_new()));
        MemoryFile { id, position: 0 }
    }

    /// Allocates a read-only file over shared bytes that no directory lists,
    /// and opens it. The bytes are not copied.
    pub fn with_readonly_data(fs: &mut MemoryFilesystem, data: Bytes) -> (file: Self)
        requires
            old(fs).wf(),
        ensures
            final(fs).wf(),
            file.id == old(fs)@.files.len(),
            file.position == 0,
            final(fs)@ == old(fs)@.with_new_file(
                FileView { bytes: bytes_contents(data), read_only: true },
            ),
    {
        let id = fs.add_file(MemoryFileData::ReadOnly(data));
        MemoryFile { id, position: 0 }
    }

    /// Allocates a growable file holding `data` that no directory lists, and
    /// opens it.
    pub fn with_data(fs: &mut MemoryFilesystem, data: Vec<u8>) -> (file: Self)
        requires
            old(fs).wf(),
        ensures
            final(fs).wf(),
            file.id == old(fs)@.files.len(),
            file.position == 0,
            final(fs)@ == old(fs)@.with_new_file(FileView { bytes: data@, read_only: false }),
    {
        let id = fs.add_file(MemoryFileData::ReadWrite(bytes_mut_from_slice(data.as_slice())));
        MemoryFile { id, position: 0 }
    }

    /// The file's length in bytes; zero once the file has been removed.
    pub fn len(&self, fs: &MemoryFilesystem) -> (n: usize)
        ensures
            n == match fs@.file(self.id as int) {
                Some(f) => f.bytes.len(),
                None => 0,
            },
    {
        if self.id >= fs.files.len() {
            return 0;
        }
        match &fs.files[self.id] {
            Some(MemoryFileData::ReadOnly(b)) => bytes_len(b),
            Some(MemoryFileData::ReadWrite(b)) => bytes_mut_len(b),
            None => 0,
        }
    }

    /// Whether the file still exists.
    pub fn is_live(&self, fs: &MemoryFilesystem) -> (live: bool)
        ensures
            live == (fs@.file(self.id as int) is Some),
    {
        fs.file_live(self.id)
    }

    /// Whether the file refuses writes; false once the file has been removed.
    pub fn is_read_only(&self, fs: &MemoryFilesystem) -> (ro: bool)
        ensures
            ro == match fs@.file(self.id as int) {
                Some(f) => f.read_only,
                None => false,
            },
    {
        if self.id >= fs.files.len() {
            return false;
        }
        match &fs.files[self.id] {
            Some(MemoryFileData::ReadOnly(_)) => true,
            _ => false,
        }
    }

    /// Whether the file holds no bytes.
    pub fn is_empty(&self, fs: &MemoryFilesystem) -> (e: bool)
        ensures
            e == match fs@.file(self.id as int) {
                Some(f) => f.bytes.len() == 0,
                None => true,
            },
    {
        self.len(fs) == 0
    }

    /// Reads at most `max` bytes at the cursor and advances the cursor past
    /// them. At or beyond the end of the file nothing is read.
    pub fn read(&mut self, fs: &MemoryFilesystem, max: usize) -> (r: Result<Vec<u8>, FsError>)
        ensures
            final(self).id == old(self).id,
            match fs@.file(old(self).id as int) {
                Some(f) => r matches Ok(data) && data@ == read_at(
                    f.bytes,
                    old(self).position as int,
                    max as int,
                ) && final(self).position == old(self).position + data@.len(),
                None => r == Err::<Vec<u8>, FsError>(FsError::NotFound) && *final(self) == *old(
                    self,
                ),
            },
    {
        if self.id >= fs.files.len() {
            return Err(FsError::NotFound);
        }
        let all: &[u8] = match &fs.files[self.id] {
            Some(MemoryFileData::ReadOnly(b)) => bytes_as_slice(b),
            Some(MemoryFileData::ReadWrite(b)) => bytes_mut_as_slice(b),
            None => {
                return Err(FsError::NotFound);
            },
        };
        let len: usize = all.len();
        let pos: usize = self.position;
        if pos >= len || max == 0 {
            return Ok(Vec::new());
        }
        let available: usize = len - pos;
        let count: usize = if max < available {
            max
        } else {
            available
        };
        let data = slice_to_vec(slice_subrange(all, pos, pos + count));
        self.position = pos + count;
        Ok(data)
    }

    /// Reads everything from the cursor to the end of the file and leaves the
    /// cursor at the end.
    pub fn read_to_end(&mut self, fs: &MemoryFilesystem) -> (r: Result<Vec<u8>, FsError>)
        ensures
            final(self).id == old(self).id,
            match fs@.file(old(self).id as int) {
                Some(f) => r matches Ok(data) && data@ == read_at(
                    f.bytes,
                    old(self).position as int,
                    usize::MAX as int,
                ) && final(self).position == old(self).position + data@.len(),
                None => r == Err::<Vec<u8>, FsError>(FsError::NotFound) && *final(self) == *old(
                    self,
                ),
            },
    {
        self.read(fs, usize::MAX)
    }

    /// Writes `data` at the cursor and advances the cursor past it. A growable
    /// file is extended as needed, with zero bytes between its old end and the
    /// cursor; a read-only file refuses, and so does a write that would end
    /// beyond the largest size a buffer can have.
    pub fn write(&mut self, fs: &mut MemoryFilesystem, data: &[u8]) -> (r: Result<usize, FsError>)
        requires
            old(fs).wf(),
        ensures
            final(fs).wf(),
            final(self).id == old(self).id,
            match old(fs)@.file(old(self).id as int) {
                None => r == Err::<usize, FsError>(FsError::NotFound),
                Some(f) => if f.read_only {
                    r == Err::<usize, FsError>(FsError::PermissionDenied)
                } else if old(self).position + data@.len() > isize::MAX {
                    r == Err::<usize, FsError>(FsError::InvalidInput)
                } else {
                    &&& r == Ok::<usize, FsError>(data@.len() as usize)
                    &&& final(self).position == old(self).position + data@.len()
                    &&& final(fs)@ == old(fs)@.with_file(
                        old(self).id as int,
                        Some(
                            FileView {
                                bytes: write_at(f.bytes, old(self).position as int, data@),
                                read_only: false,
                            },
                        ),
                    )
                },
            },
            r is Err ==> final(fs)@ == old(fs)@ && *final(self) == *old(self),
    {
        let id: usize = self.id;
        let pos: usize = self.position;
        if id >= fs.files.len() {
            return Err(FsError::NotFound);
        }
        match &fs.files[id] {
            Some(MemoryFileData::ReadWrite(_)) => {},
            Some(MemoryFileData::ReadOnly(_)) => {
                return Err(FsError::PermissionDenied);
            },
            None => {
                return Err(FsError::NotFound);
            },
        }
        let limit: usize = isize::MAX as usize;
        if pos > limit || data.len() > limit - pos {
            return Err(FsError::InvalidInput);
        }
        let end: usize = pos + data.len();
        match &mut fs.files[id] {
            Some(MemoryFileData::ReadWrite(buf)) => {
                let ghost before = bytes_mut_contents(*buf);
                if end > bytes_mut_len(buf) {
                    bytes_mut_resize_zeroed(buf, end);
                }
                bytes_mut_overwrite(buf, pos, end, data);
                proof {
                    assert(bytes_mut_contents(*buf) =~= write_at(before, pos as int, data@));
                }
            },
            _ => {},
        }
        self.position = pos + data.len();
        proof {
            let f = old(fs)@.file(id as int)->0;
            let after = FileView { bytes: write_at(f.bytes, pos as int, data@), read_only: false };
            assert(fs@.files =~= old(fs)@.files.update(id as int, Some(after)));
            assert(fs@.dirs =~= old(fs)@.dirs);
        }
        Ok(data.len())
    }

    /// Nothing is buffered, so there is nothing to flush.
    pub fn flush(&mut self) -> (r: Result<(), FsError>)
        ensures
            r is Ok,
            *final(self) == *old(self),
    {
        Ok(())
    }

    /// Moves the cursor and returns its new absolute position. A position
    /// below zero, or one beyond what a signed 64-bit offset or a cursor can
    /// hold, is refused and leaves the cursor where it was.
    pub fn seek(&mut self, fs: &MemoryFilesystem, from: SeekFrom) -> (r: Result<u64, FsError>)
        ensures
            final(self).id == old(self).id,
            match fs@.file(old(self).id as int) {
                None => r == Err::<u64, FsError>(FsError::NotFound),
                Some(f) => {
                    let target = seek_target(from, old(self).position as int, f.bytes.len() as int);
                    if 0 <= target <= usize::MAX && target <= i64::MAX {
                        r == Ok::<u64, FsError>(target as u64) && final(self).position == target
                    } else {
                        r == Err::<u64, FsError>(FsError::InvalidInput)
                    }
                },
            },
            r is Err ==> *final(self) == *old(self),
    {
        if self.id >= fs.files.len() {
            return Err(FsError::NotFound);
        }
        let len: usize = match &fs.files[self.id] {
            Some(MemoryFileData::ReadOnly(b)) => bytes_len(b),
            Some(MemoryFileData::ReadWrite(b)) => bytes_mut_len(b),
            None => {
                return Err(FsError::NotFound);
            },
        };
        let target: i128 = match from {
            SeekFrom::Start(offset) => offset as i128,
            SeekFrom::Current(offset) => self.position as i128 + offset as i128,
            SeekFrom::End(offset) => len as i128 + offset as i128,
        };
        if target < 0 || target > usize::MAX as i128 || target > i64::MAX as i128 {
            return Err(FsError::InvalidInput);
        }
        self.position = target as usize;
        Ok(target as u64)
    }

    /// Empties a growable file; a read-only file refuses.
    pub fn truncate(&self, fs: &mut MemoryFilesystem) -> (r: Result<(), FsError>)
        requires
            old(fs).wf(),
        ensures
            final(fs).wf(),
            match old(fs)@.file(self.id as int) {
                None => r == Err::<(), FsError>(FsError::NotFound),
                Some(f) => if f.read_only {
                    r == Err::<(), FsError>(FsError::PermissionDenied)
                } else {
                    r == Ok::<(), FsError>(()) && final(fs)@ == old(fs)@.with_file(
                        self.id as int,
                        Some(FileView { bytes: Seq::empty(), read_only: false }),
                    )
                },
            },
            r is Err ==> final(fs)@ == old(fs)@,
    {
        let id: usize = self.id;
        if id >= fs.files.len() {
            return Err(FsError::NotFound);
        }
        match &fs.files[id] {
            Some(MemoryFileData::ReadWrite(_)) => {},
            Some(MemoryFileData::ReadOnly(_)) => {
                return Err(FsError::PermissionDenied);
            },
            None => {
                return Err(FsError::NotFound);
            },
        }
        match &mut fs.files[id] {
            Some(MemoryFileData::ReadWrite(buf)) => {
                bytes_mut_resize_zeroed(buf, 0);
                proof {
                    assert(bytes_mut_contents(*buf) =~= Seq::<u8>::empty());
                }
            },
            _ => {},
        }
        proof {
            let after = FileView { bytes: Seq::<u8>::empty(), read_only: false };
            assert(fs@.files =~= old(fs)@.files.update(id as int, Some(after)));
            assert(fs@.dirs =~= old(fs)@.dirs);
        }
        Ok(())
    }
}

impl MemoryFilesystem {
    /// Position of the entry called `name` in directory `dir`.
    #[verifier::loop_isolation(false)]
    fn find_in(&self, dir: usize, name: &str) -> (r: Option<usize>)
        requires
            self.wf(),
            dir < self@.dirs.len(),
        ensures
            match r {
                Some(i) => i < self@.dirs[dir as int].len() && has_name(
                    self@.dirs[dir as int],
                    name@,
                ) && index_of_name(self@.dirs[dir as int], name@) == i && self.dirs@[dir as int]@[i as int].entry
                    == self@.dirs[dir as int][i as int].entry,
                None => !has_name(self@.dirs[dir as int], name@),
            },
            r is Some == (self@.lookup(dir as int, name@) is Some),
    {
        let entries = &self.dirs[dir];
        let wanted = name.to_owned();
        let ghost view = self@.dirs[dir as int];
        let mut i: usize = 0;
        while i < entries.len()
            invariant
                i <= entries@.len(),
                entries == &self.dirs@[dir as int],
                view == self@.dirs[dir as int],
                view.len() == entries@.len(),
                names_unique(view),
                forall|j: int| 0 <= j < i ==> (#[trigger] view[j]).name != name@,
            decreases entries@.len() - i,
        {
            proof {
                assert(view[i as int].name == entries@[i as int].name@);
            }
            if string_equal(&entries[i].name, &wanted) {
                return Some(i);
            }
            i += 1;
        }
        None
    }

    fn entry_at(&self, dir: usize, index: usize) -> (e: Entry)
        requires
            dir < self@.dirs.len(),
            index < self@.dirs[dir as int].len(),
        ensures
            e == self@.dirs[dir as int][index as int].entry,
    {
        self.dirs[dir][index].entry
    }

    fn file_live(&self, id: usize) -> (live: bool)
        ensures
            live == (self@.file(id as int) is Some),
    {
        if id >= self.files.len() {
            return false;
        }
        match &self.files[id] {
            Some(_) => true,
            None => false,
        }
    }

    fn add_dir(&mut self) -> (id: usize)
        requires
            old(self).wf(),
        ensures
            final(self).wf(),
            id == old(self)@.dirs.len(),
            final(self)@ == old(self)@.with_new_dir(),
    {
        let id: usize = self.dirs.len();
        self.dirs.push(Vec::new());
        proof {
            assert(self@.dirs[id as int] =~= Seq::<DirEntryView>::empty());
            assert(self@.dirs =~= old(self)@.dirs.push(Seq::empty()));
            assert(self@.files =~= old(self)@.files);
        }
        id
    }

    fn add_entry(&mut self, dir: usize, name: &str, entry: Entry)
        requires
            old(self).wf(),
            dir < old(self)@.dirs.len(),
            !has_name(old(self)@.dirs[dir as int], name@),
            match entry {
                Entry::File(f) => f < old(self)@.files.len(),
                Entry::Directory(c) => c < old(self)@.dirs.len(),
            },
        ensures
            final(self).wf(),
            final(self)@ == old(self)@.with_entry(dir as int, name@, entry),
    {
        let owned = name.to_owned();
        self.dirs[dir].push(DirEntry { name: owned, entry });
        proof {
            let before = old(self)@.dirs[dir as int];
            let added = DirEntryView { name: name@, entry };
            assert(self@.dirs[dir as int] =~= before.push(added));
            assert(self@.dirs =~= old(self)@.dirs.update(dir as int, before.push(added)));
            assert(self@.files =~= old(self)@.files);
            assert(names_unique(before.push(added))) by {
                assert forall|i: int, j: int|
                    0 <= i < before.len() + 1 && 0 <= j < before.len() + 1 && #[trigger] before.push(
                        added,
                    )[i].name == #[trigger] before.push(added)[j].name implies i == j by {
                    if i < before.len() && j < before.len() {
                        assert(before[i].name == before[j].name);
                    } else if i < before.len() {
                        assert(before[i].name == name@);
                    } else if j < before.len() {
                        assert(before[j].name == name@);
                    }
                }
            }
        }
    }

    fn drop_entry(&mut self, dir: usize, index: usize)
        requires
            old(self).wf(),
            dir < old(self)@.dirs.len(),
            index < old(self)@.dirs[dir as int].len(),
        ensures
            final(self).wf(),
            final(self)@.files == old(self)@.files,
            final(self)@.dirs == old(self)@.dirs.update(
                dir as int,
                old(self)@.dirs[dir as int].remove(index as int),
            ),
    {
        let _removed = self.dirs[dir].remove(index);
        proof {
            let before = old(self)@.dirs[dir as int];
            assert(self@.dirs[dir as int] =~= before.remove(index as int));
            assert(self@.dirs =~= old(self)@.dirs.update(dir as int, before.remove(index as int)));
            assert(self@.files =~= old(self)@.files);
            let after = before.remove(index as int);
            assert forall|i: int, j: int|
                0 <= i < after.len() && 0 <= j < after.len() && #[trigger] after[i].name
                    == #[trigger] after[j].name implies i == j by {
                let ii = if i < index { i } else { i + 1 };
                let jj = if j < index { j } else { j + 1 };
                assert(before[ii].name == before[jj].name);
            }
            assert forall|d: int, i: int|
                0 <= d < self@.dirs.len() && 0 <= i < self@.dirs[d].len() implies match (
                #[trigger] self@.dirs[d][i]).entry {
                    Entry::File(f) => f < self@.files.len(),
                    Entry::Directory(c) => c < self@.dirs.len(),
                } by {
                if d == dir {
                    let ii = if i < index { i } else { i + 1 };
                    assert(self@.dirs[d][i] == old(self)@.dirs[d][ii]);
                } else {
                    assert(self@.dirs[d][i] == old(self)@.dirs[d][i]);
                }
            }
        }
    }

    fn release_file(&mut self, id: usize)
        requires
            old(self).wf(),
            id < old(self)@.files.len(),
        ensures
            final(self).wf(),
            final(self)@ == old(self)@.with_file(id as int, None),
    {
        self.files.set(id, None);
        proof {
            assert(self@.files =~= old(self)@.files.update(id as int, None));
            assert(self@.dirs =~= old(self)@.dirs);
        }
    }
}

impl MemoryDirectory {
    /// Allocates an empty directory that no other directory lists.
    pub fn new(fs: &mut MemoryFilesystem) -> (dir: Self)
        requires
            old(fs).wf(),
        ensures
            final(fs).wf(),
            dir.id == old(fs)@.dirs.len(),
            final(fs)@ == old(fs)@.with_new_dir(),
    {
        MemoryDirectory { id: fs.add_dir() }
    }

    /// The entry called `name`, if the directory has one.
    pub fn lookup(&self, fs: &MemoryFilesystem, name: &str) -> (r: Option<Entry>)
        requires
            fs.wf(),
        ensures
            r == fs@.lookup(self.id as int, name@),
    {
        if self.id >= fs.dirs.len() {
            return None;
        }
        match fs.find_in(self.id, name) {
            Some(i) => Some(fs.entry_at(self.id, i)),
            None => None,
        }
    }

    /// Creates a growable file called `name` holding `data`.
    pub fn create_file(&self, fs: &mut MemoryFilesystem, name: &str, data: Vec<u8>) -> (r: Result<
        (),
        FsError,
    >)
        requires
            old(fs).wf(),
        ensures
            final(fs).wf(),
            r == if self.id >= old(fs)@.dirs.len() {
                Err::<(), FsError>(FsError::NotFound)
            } else if old(fs)@.lookup(self.id as int, name@) is Some {
                Err(FsError::AlreadyExists)
            } else {
                Ok(())
            },
            r is Ok ==> final(fs)@ == old(fs)@.with_created_file(self.id as int, name@, data@),
            r is Err ==> final(fs)@ == old(fs)@,
    {
        if self.id >= fs.dirs.len() {
            return Err(FsError::NotFound);
        }
        if fs.find_in(self.id, name).is_some() {
            return Err(FsError::AlreadyExists);
        }
        let file = MemoryFile::with_data(fs, data);
        fs.add_entry(self.id, name, Entry::File(file.id));
        Ok(())
    }

    /// Creates an empty directory called `name`.
    pub fn create_dir(&self, fs: &mut MemoryFilesystem, name: &str) -> (r: Result<(), FsError>)
        requires
            old(fs).wf(),
        ensures
            final(fs).wf(),
            r == if self.id >= old(fs)@.dirs.len() {
                Err::<(), FsError>(FsError::NotFound)
            } else if old(fs)@.lookup(self.id as int, name@) is Some {
                Err(FsError::AlreadyExists)
            } else {
                Ok(())
            },
            r is Ok ==> final(fs)@ == old(fs)@.with_created_dir(self.id as int, name@),
            r is Err ==> final(fs)@ == old(fs)@,
    {
        if self.id >= fs.dirs.len() {
            return Err(FsError::NotFound);
        }
        if fs.find_in(self.id, name).is_some() {
            return Err(FsError::AlreadyExists);
        }
        let child = fs.add_dir();
        fs.add_entry(self.id, name, Entry::Directory(child));
        Ok(())
    }

    /// Opens the file called `name`, with a fresh cursor at its start.
    pub fn get_file(&self, fs: &MemoryFilesystem, name: &str) -> (r: Result<MemoryFile, FsError>)
        requires
            fs.wf(),
        ensures
            match fs@.lookup(self.id as int, name@) {
                Some(Entry::File(f)) => if fs@.file(f as int) is Some {
                    r matches Ok(file) && file.id == f && file.position == 0
                } else {
                    r matches Err(e) && e == FsError::NotFound
                },
                Some(Entry::Directory(_)) => r matches Err(e) && e == FsError::InvalidInput,
                None => r matches Err(e) && e == FsError::NotFound,
            },
    {
        match self.lookup(fs, name) {
            Some(Entry::File(f)) => {
                if fs.file_live(f) {
                    Ok(MemoryFile { id: f, position: 0 })
                } else {
                    Err(FsError::NotFound)
                }
            },
            Some(Entry::Directory(_)) => Err(FsError::InvalidInput),
            None => Err(FsError::NotFound),
        }
    }

    /// A handle on the subdirectory called `name`.
    pub fn get_dir(&self, fs: &MemoryFilesystem, name: &str) -> (r: Result<
        MemoryDirectory,
        FsError,
    >)
        requires
            fs.wf(),
        ensures
            match fs@.lookup(self.id as int, name@) {
                Some(Entry::Directory(d)) => r matches Ok(dir) && dir.id == d,
                Some(Entry::File(_)) => r matches Err(e) && e == FsError::InvalidInput,
                None => r matches Err(e) && e == FsError::NotFound,
            },
    {
        match self.lookup(fs, name) {
            Some(Entry::Directory(d)) => Ok(MemoryDirectory { id: d }),
            Some(Entry::File(_)) => Err(FsError::InvalidInput),
            None => Err(FsError::NotFound),
        }
    }

    /// The directory's entries in creation order, each with a flag that tells
    /// directories from files.
    #[verifier::loop_isolation(false)]
    pub fn list(&self, fs: &MemoryFilesystem) -> (listing: Vec<(String, bool)>)
        ensures
            self.id >= fs@.dirs.len() ==> listing@.len() == 0,
            self.id < fs@.dirs.len() ==> listing@.len() == fs@.dirs[self.id as int].len(),
            forall|i: int|
                0 <= i < listing@.len() ==> (#[trigger] listing@[i]).0@
                    == fs@.dirs[self.id as int][i].name && listing@[i].1
                    == (fs@.dirs[self.id as int][i].entry is Directory),
    {
        let mut listing: Vec<(String, bool)> = Vec::new();
        if self.id >= fs.dirs.len() {
            return listing;
        }
        let entries = &fs.dirs[self.id];
        let ghost view = fs@.dirs[self.id as int];
        let mut i: usize = 0;
        while i < entries.len()
            invariant
                i <= entries@.len(),
                entries == &fs.dirs@[self.id as int],
                self.id < fs@.dirs.len(),
                view == fs@.dirs[self.id as int],
                view.len() == entries@.len(),
                listing@.len() == i,
                forall|j: int|
                    0 <= j < i ==> (#[trigger] listing@[j]).0@ == view[j].name && listing@[j].1 == (
                    view[j].entry is Directory),
            decreases entries@.len() - i,
        {
            let is_dir = match entries[i].entry {
                Entry::Directory(_) => true,
                Entry::File(_) => false,
            };
            listing.push((entries[i].name.clone(), is_dir));
            i += 1;
        }
        listing
    }

    /// Removes the entry called `name`. A removed file gives up its storage;
    /// handles still open on it find nothing there.
    pub fn remove(&self, fs: &mut MemoryFilesystem, name: &str) -> (r: Result<(), FsError>)
        requires
            old(fs).wf(),
        ensures
            final(fs).wf(),
            r == if old(fs)@.lookup(self.id as int, name@) is Some {
                Ok::<(), FsError>(())
            } else {
                Err(FsError::NotFound)
            },
            final(fs)@ == old(fs)@.with_removed(self.id as int, name@),
    {
        if self.id >= fs.dirs.len() {
            return Err(FsError::NotFound);
        }
        match fs.find_in(self.id, name) {
            Some(i) => {
                let entry = fs.entry_at(self.id, i);
                fs.drop_entry(self.id, i);
                match entry {
                    Entry::File(f) => {
                        fs.release_file(f);
                    },
                    Entry::Directory(_) => {},
                }
                Ok(())
            },
            None => Err(FsError::NotFound),
        }
    }
}

impl MemoryFilesystem {
    /// The directory reached from `start` along `parts[from..to]`.
    #[verifier::loop_isolation(false)]
    fn walk_dirs(&self, start: usize, parts: &Vec<String>, to: usize) -> (r: Result<usize, FsError>)
        requires
            self.wf(),
            start < self@.dirs.len(),
            to <= parts@.len(),
        ensures
            match self@.walk(start as int, views_of(parts@).take(to as int)) {
                Ok(d) => r matches Ok(found) && found == d && d < self@.dirs.len(),
                Err(e) => r matches Err(err) && err == e,
            },
    {
        let ghost names = views_of(parts@).take(to as int);
        let mut cur: usize = start;
        let mut i: usize = 0;
        proof {
            assert(names.skip(0) =~= names);
        }
        while i < to
            invariant
                i <= to,
                cur < self@.dirs.len(),
                self@.walk(start as int, names) == self@.walk(cur as int, names.skip(i as int)),
            decreases to - i,
        {
            proof {
                let rest = names.skip(i as int);
                assert(rest[0] == parts@[i as int]@);
                assert(rest.drop_first() == names.skip(i as int + 1));
                lemma_lookup_in_range(self@, cur as int, rest[0]);
            }
            match self.find_in(cur, parts[i].as_str()) {
                Some(index) => match self.entry_at(cur, index) {
                    Entry::Directory(d) => {
                        cur = d;
                    },
                    Entry::File(_) => {
                        return Err(FsError::InvalidInput);
                    },
                },
                None => {
                    return Err(FsError::NotFound);
                },
            }
            i += 1;
        }
        proof {
            assert(names.skip(to as int).len() == 0);
        }
        Ok(cur)
    }

    /// The directory that holds the leaf of `path`, and the leaf's name.
    fn resolve_path(&self, path: &str) -> (r: Result<(usize, String), FsError>)
        requires
            self.wf(),
        ensures
            match self@.resolve(path@) {
                Ok((dir, leaf)) => r matches Ok((d, name)) && d == dir && name@ == leaf && d
                    < self@.dirs.len(),
                Err(e) => r matches Err(err) && err == e,
            },
    {
        let parts = split_path(path);
        if parts.len() == 0 {
            return Err(FsError::InvalidInput);
        }
        let last: usize = parts.len() - 1;
        proof {
            assert(views_of(parts@).take(last as int) =~= path_components(path@).drop_last());
            assert(parts@[last as int]@ == views_of(parts@)[last as int]);
        }
        match self.walk_dirs(0, &parts, last) {
            Ok(dir) => Ok((dir, parts[last].clone())),
            Err(e) => Err(e),
        }
    }

    /// Creates a growable file at `path` holding `data`. Every directory on
    /// the way must exist, and the leaf name must be free.
    pub fn create_file(&mut self, path: &str, data: Vec<u8>) -> (r: Result<(), FsError>)
        requires
            old(self).wf(),
        ensures
            final(self).wf(),
            match old(self)@.resolve(path@) {
                Ok((dir, leaf)) => if old(self)@.lookup(dir, leaf) is Some {
                    r == Err::<(), FsError>(FsError::AlreadyExists)
                } else {
                    r == Ok::<(), FsError>(()) && final(self)@ == old(self)@.with_created_file(
                        dir,
                        leaf,
                        data@,
                    )
                },
                Err(e) => r == Err::<(), FsError>(e),
            },
            r is Err ==> final(self)@ == old(self)@,
    {
        match self.resolve_path(path) {
            Ok((dir, leaf)) => MemoryDirectory { id: dir }.create_file(self, leaf.as_str(), data),
            Err(e) => Err(e),
        }
    }

    /// Creates a growable file at `path` holding `data` and opens it.
    pub fn create_and_open(&mut self, path: &str, data: Vec<u8>) -> (r: Result<
        MemoryFile,
        FsError,
    >)
        requires
            old(self).wf(),
        ensures
            final(self).wf(),
            match old(self)@.resolve(path@) {
                Ok((dir, leaf)) => if old(self)@.lookup(dir, leaf) is Some {
                    r matches Err(e) && e == FsError::AlreadyExists
                } else {
                    &&& r matches Ok(file)
                    &&& file.id == old(self)@.files.len()
                    &&& file.position == 0
                    &&& final(self)@ == old(self)@.with_created_file(dir, leaf, data@)
                },
                Err(e) => r matches Err(err) && err == e,
            },
            r is Err ==> final(self)@ == old(self)@,
    {
        let id: usize = self.files.len();
        match self.create_file(path, data) {
            Ok(()) => Ok(MemoryFile { id, position: 0 }),
            Err(e) => Err(e),
        }
    }

    /// Removes the entry at `path`, as `MemoryDirectory::remove` does in the
    /// directory that holds it.
    pub fn remove_path(&mut self, path: &str) -> (r: Result<(), FsError>)
        requires
            old(self).wf(),
        ensures
            final(self).wf(),
            final(self)@ == old(self)@.with_path_removed(path@),
            match old(self)@.resolve(path@) {
                Ok((dir, leaf)) => r == if old(self)@.lookup(dir, leaf) is Some {
                    Ok::<(), FsError>(())
                } else {
                    Err(FsError::NotFound)
                },
                Err(e) => r == Err::<(), FsError>(e),
            },
    {
        match self.resolve_path(path) {
            Ok((dir, leaf)) => MemoryDirectory { id: dir }.remove(self, leaf.as_str()),
            Err(e) => Err(e),
        }
    }

    /// Opens the file at `path`, with a fresh cursor at its start.
    pub fn open_file(&self, path: &str) -> (r: Result<MemoryFile, FsError>)
        requires
            self.wf(),
        ensures
            match self@.file_at(path@) {
                Ok(f) => r matches Ok(file) && file.id == f && file.position == 0,
                Err(e) => r matches Err(err) && err == e,
            },
    {
        match self.resolve_path(path) {
            Ok((dir, leaf)) => MemoryDirectory { id: dir }.get_file(self, leaf.as_str()),
            Err(e) => Err(e),
        }
    }

    /// Creates the directory at `path` together with every missing directory
    /// on the way. Directories that exist are left alone.
    #[verifier::loop_isolation(false)]
    pub fn create_dir_all(&mut self, path: &str) -> (r: Result<(), FsError>)
        requires
            old(self).wf(),
        ensures
            final(self).wf(),
            (final(self)@, r) == old(self)@.with_dirs_made(0, path_components(path@)),
    {
        let parts = split_path(path);
        let ghost names = views_of(parts@);
        let mut cur: usize = 0;
        let mut i: usize = 0;
        proof {
            assert(names.skip(0) =~= names);
        }
        while i < parts.len()
            invariant
                i <= parts@.len(),
                self.wf(),
                cur < self@.dirs.len(),
                old(self)@.with_dirs_made(0, names) == self@.with_dirs_made(
                    cur as int,
                    names.skip(i as int),
                ),
            decreases parts@.len() - i,
        {
            proof {
                let rest = names.skip(i as int);
                assert(rest[0] == parts@[i as int]@);
                assert(rest.drop_first() == names.skip(i as int + 1));
                lemma_lookup_in_range(self@, cur as int, rest[0]);
            }
            match self.find_in(cur, parts[i].as_str()) {
                Some(index) => match self.entry_at(cur, index) {
                    Entry::Directory(d) => {
                        cur = d;
                    },
                    Entry::File(_) => {
                        return Err(FsError::AlreadyExists);
                    },
                },
                None => {
                    let child = self.add_dir();
                    self.add_entry(cur, parts[i].as_str(), Entry::Directory(child));
                    cur = child;
                },
            }
            i += 1;
        }
        proof {
            assert(names.skip(parts@.len() as int).len() == 0);
        }
        Ok(())
    }

    /// Makes `/data.bin` a read-only file over `data`, replacing whatever was
    /// there. The bytes are not copied.
    pub fn set_data_bin(&mut self, data: Bytes) -> (r: Result<(), FsError>)
        requires
            old(self).wf(),
        ensures
            final(self).wf(),
            r is Ok,
            final(self)@ == old(self)@.with_data_bin(bytes_contents(data)),
    {
        let ghost file = FileView { bytes: bytes_contents(data), read_only: true };
        proof {
            lemma_lookup_in_range(self@, 0, "data.bin"@);
        }
        match self.find_in(0, "data.bin") {
            Some(index) => match self.entry_at(0, index) {
                Entry::File(f) => {
                    self.files.set(f, Some(MemoryFileData::ReadOnly(data)));
                    proof {
                        assert(self@.files =~= old(self)@.files.update(f as int, Some(file)));
                        assert(self@.dirs =~= old(self)@.dirs);
                    }
                },
                Entry::Directory(_) => {
                    self.drop_entry(0, index);
                    proof {
                        let gone = self@.dirs[0];
                        assert(!has_name(gone, "data.bin"@)) by {
                            let before = old(self)@.dirs[0];
                            if has_name(gone, "data.bin"@) {
                                let j = index_of_name(gone, "data.bin"@);
                                let jj = if j < index { j } else { j + 1 };
                                assert(before[jj].name == before[index as int].name);
                            }
                        }
                    }
                    let id = self.add_file(MemoryFileData::ReadOnly(data));
                    self.add_entry(0, "data.bin", Entry::File(id));
                },
            },
            None => {
                let id = self.add_file(MemoryFileData::ReadOnly(data));
                self.add_entry(0, "data.bin", Entry::File(id));
            },
        }
        Ok(())
    }

    /// A handle on the directory at `path`; the empty path names the root.
    pub fn get_dir(&self, path: &str) -> (r: Result<MemoryDirectory, FsError>)
        requires
            self.wf(),
        ensures
            match self@.walk(0, path_components(path@)) {
                Ok(d) => r matches Ok(dir) && dir.id == d && d < self@.dirs.len(),
                Err(e) => r matches Err(err) && err == e,
            },
    {
        let parts = split_path(path);
        proof {
            assert(views_of(parts@).take(parts@.len() as int) =~= views_of(parts@));
        }
        match self.walk_dirs(0, &parts, parts.len()) {
            Ok(dir) => Ok(MemoryDirectory { id: dir }),
            Err(e) => Err(e),
        }
    }

    /// A handle on the directory that is the leaf of `path`.
    pub fn get_dir_entry(&self, path: &str) -> (r: Result<MemoryDirectory, FsError>)
        requires
            self.wf(),
        ensures
            match self@.resolve(path@) {
                Ok((dir, leaf)) => match self@.lookup(dir, leaf) {
                    Some(Entry::Directory(d)) => r matches Ok(found) && found.id == d,
                    Some(Entry::File(_)) => r matches Err(e) && e == FsError::InvalidInput,
                    None => r matches Err(e) && e == FsError::NotFound,
                },
                Err(e) => r matches Err(err) && err == e,
            },
    {
        match self.resolve_path(path) {
            Ok((dir, leaf)) => MemoryDirectory { id: dir }.get_dir(self, leaf.as_str()),
            Err(e) => Err(e),
        }
    }

    /// The whole contents of the file at `path`.
    pub fn read_file(&self, path: &str) -> (r: Result<Vec<u8>, FsError>)
        requires
            self.wf(),
        ensures
            match self@.contents_at(path@) {
                Ok(bytes) => r matches Ok(data) && data@ == bytes,
                Err(e) => r matches Err(err) && err == e,
            },
    {
        match self.open_file(path) {
            Ok(file) => {
                let mut file = file;
                let n = file.len(self);
                let r = file.read_to_end(self);
                proof {
                    let bytes = self@.files[file.id as int]->0.bytes;
                    assert(read_at(bytes, 0, usize::MAX as int) =~= bytes);
                }
                r
            },
            Err(e) => Err(e),
        }
    }

    /// Removes the file at `path` and hands out its contents as shared bytes,
    /// without copying.
    pub fn take_file_bytes(&mut self, path: &str) -> (r: Result<Bytes, FsError>)
        requires
            old(self).wf(),
        ensures
            final(self).wf(),
            match old(self)@.contents_at(path@) {
                Ok(bytes) => r matches Ok(taken) && bytes_contents(taken) == bytes && final(self)@
                    == old(self)@.with_path_removed(path@),
                Err(e) => r matches Err(err) && err == e && final(self)@ == old(self)@,
            },
    {
        let (dir, leaf) = match self.resolve_path(path) {
            Ok(found) => found,
            Err(e) => {
                return Err(e);
            },
        };
        proof {
            lemma_lookup_in_range(self@, dir as int, leaf@);
        }
        let index = match self.find_in(dir, leaf.as_str()) {
            Some(index) => index,
            None => {
                return Err(FsError::NotFound);
            },
        };
        let id = match self.entry_at(dir, index) {
            Entry::File(f) => f,
            Entry::Directory(_) => {
                return Err(FsError::InvalidInput);
            },
        };
        if !self.file_live(id) {
            return Err(FsError::NotFound);
        }
        self.drop_entry(dir, index);
        let mut slot: Option<MemoryFileData> = None;
        self.files.set_and_swap(id, &mut slot);
        proof {
            assert(self@.files =~= old(self)@.files.update(id as int, None));
            assert(self@.dirs =~= old(self)@.without_entry(dir as int, leaf@).dirs);
        }
        match slot {
            Some(MemoryFileData::ReadWrite(buf)) => Ok(bytes_mut_freeze(buf)),
            Some(MemoryFileData::ReadOnly(bytes)) => Ok(bytes),
            None => Err(FsError::NotFound),
        }
    }
}

} // verus!

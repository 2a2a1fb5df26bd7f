//! The in-memory filesystem in plain values: a table of files and a table
//! of directories, what paths lead to, and how the tables change.

use crate::memory_fs::{Entry, FsError, SeekFrom};
use crate::shared_buffer::zeros;
use crate::text::path_components;
use vstd::prelude::*;

verus! {

/// What a file holds, and whether it may be written.
pub struct FileView {
    pub bytes: Seq<u8>,
    pub read_only: bool,
}

/// A named entry of a directory.
pub struct DirEntryView {
    pub name: Seq<char>,
    pub entry: Entry,
}

/// The filesystem as a pair of tables. `files[i]` is `None` once file `i` has
/// been removed. `dirs[0]` is the root; a directory lists its entries in
/// creation order.
pub struct FsView {
    pub files: Seq<Option<FileView>>,
    pub dirs: Seq<Seq<DirEntryView>>,
}

/// The bytes a read of at most `max` bytes at `pos` returns.
pub open spec fn read_at(bytes: Seq<u8>, pos: int, max: int) -> Seq<u8> {
    if 0 <= pos < bytes.len() && max > 0 {
        bytes.subrange(pos, if pos + max < bytes.len() { pos + max } else { bytes.len() as int })
    } else {
        Seq::empty()
    }
}

/// The contents of a file after `data` was written at `pos`: the file is
/// zero-extended up to `pos` where needed, then overwritten.
pub open spec fn write_at(bytes: Seq<u8>, pos: int, data: Seq<u8>) -> Seq<u8> {
    let padded = if pos > bytes.len() {
        bytes + zeros((pos - bytes.len()) as nat)
    } else {
        bytes
    };
    padded.take(pos) + data + (if pos + data.len() < padded.len() {
        padded.skip(pos + data.len())
    } else {
        Seq::empty()
    })
}

/// The position a seek asks for, before any range check.
pub open spec fn seek_target(from: SeekFrom, position: int, len: int) -> int {
    match from {
        SeekFrom::Start(offset) => offset as int,
        SeekFrom::Current(offset) => position + offset,
        SeekFrom::End(offset) => len + offset,
    }
}

/// Some entry of the directory has this name.
pub open spec fn has_name(entries: Seq<DirEntryView>, name: Seq<char>) -> bool {
    exists|i: int| 0 <= i < entries.len() && #[trigger] entries[i].name == name
}

/// The index of the entry with this name.
pub open spec fn index_of_name(entries: Seq<DirEntryView>, name: Seq<char>) -> int {
    choose|i: int| 0 <= i < entries.len() && #[trigger] entries[i].name == name
}

/// No two entries share a name.
pub open spec fn names_unique(entries: Seq<DirEntryView>) -> bool {
    forall|i: int, j: int|
        0 <= i < entries.len() && 0 <= j < entries.len() && #[trigger] entries[i].name
            == #[trigger] entries[j].name ==> i == j
}

impl FsView {
    /// Every entry points into the tables, and names are unique within each
    /// directory.
    pub open spec fn wf(self) -> bool {
        &&& self.dirs.len() >= 1
        &&& forall|d: int| 0 <= d < self.dirs.len() ==> names_unique(#[trigger] self.dirs[d])
        &&& forall|d: int, i: int|
            0 <= d < self.dirs.len() && 0 <= i < self.dirs[d].len() ==> match (
            #[trigger] self.dirs[d][i]).entry {
                Entry::File(f) => f < self.files.len(),
                Entry::Directory(c) => c < self.dirs.len(),
            }
    }

    /// The live file in slot `id`, if there is one.
    pub open spec fn file(self, id: int) -> Option<FileView> {
        if 0 <= id < self.files.len() {
            self.files[id]
        } else {
            None
        }
    }

    /// The entry called `name` in directory `dir`.
    pub open spec fn lookup(self, dir: int, name: Seq<char>) -> Option<Entry> {
        if 0 <= dir < self.dirs.len() && has_name(self.dirs[dir], name) {
            Some(self.dirs[dir][index_of_name(self.dirs[dir], name)].entry)
        } else {
            None
        }
    }

    /// The directory reached from `dir` by following `parts` one by one.
    pub open spec fn walk(self, dir: int, parts: Seq<Seq<char>>) -> Result<int, FsError>
        decreases parts.len(),
    {
        if parts.len() == 0 {
            if 0 <= dir < self.dirs.len() {
                Ok(dir)
            } else {
                Err(FsError::NotFound)
            }
        } else {
            match self.lookup(dir, parts[0]) {
                Some(Entry::Directory(d)) => self.walk(d as int, parts.drop_first()),
                Some(Entry::File(_)) => Err(FsError::InvalidInput),
                None => Err(FsError::NotFound),
            }
        }
    }

    /// The directory that holds the leaf of `path`, with the leaf's name. The
    /// path must have at least one component, and all but the last must name
    /// directories.
    pub open spec fn resolve(self, path: Seq<char>) -> Result<(int, Seq<char>), FsError> {
        let parts = path_components(path);
        if parts.len() == 0 {
            Err(FsError::InvalidInput)
        } else {
            match self.walk(0, parts.drop_last()) {
                Ok(dir) => Ok((dir, parts.last())),
                Err(e) => Err(e),
            }
        }
    }

    /// The file slot that `path` names.
    pub open spec fn file_at(self, path: Seq<char>) -> Result<int, FsError> {
        match self.resolve(path) {
            Ok((dir, leaf)) => match self.lookup(dir, leaf) {
                Some(Entry::File(f)) => if self.file(f as int) is Some {
                    Ok(f as int)
                } else {
                    Err(FsError::NotFound)
                },
                Some(Entry::Directory(_)) => Err(FsError::InvalidInput),
                None => Err(FsError::NotFound),
            },
            Err(e) => Err(e),
        }
    }

    /// The tables after a file was appended to the file table.
    pub open spec fn with_new_file(self, file: FileView) -> FsView {
        FsView { files: self.files.push(Some(file)), dirs: self.dirs }
    }

    /// The tables after slot `id` of the file table was replaced.
    pub open spec fn with_file(self, id: int, file: Option<FileView>) -> FsView {
        FsView { files: self.files.update(id, file), dirs: self.dirs }
    }

    /// The tables after directory `dir` got a further entry.
    pub open spec fn with_entry(self, dir: int, name: Seq<char>, entry: Entry) -> FsView {
        FsView {
            files: self.files,
            dirs: self.dirs.update(dir, self.dirs[dir].push(DirEntryView { name, entry })),
        }
    }

    /// The tables after an empty directory was appended to the directory
    /// table.
    pub open spec fn with_new_dir(self) -> FsView {
        FsView { files: self.files, dirs: self.dirs.push(Seq::empty()) }
    }

    /// The tables after the entry called `name` left directory `dir`.
    pub open spec fn without_entry(self, dir: int, name: Seq<char>) -> FsView {
        FsView {
            files: self.files,
            dirs: self.dirs.update(
                dir,
                self.dirs[dir].remove(index_of_name(self.dirs[dir], name)),
            ),
        }
    }
}

impl FsView {
    /// The tables after a growable file holding `data` was created under
    /// `name` in directory `dir`.
    pub open spec fn with_created_file(self, dir: int, name: Seq<char>, data: Seq<u8>) -> FsView {
        self.with_new_file(FileView { bytes: data, read_only: false }).with_entry(
            dir,
            name,
            Entry::File(self.files.len() as usize),
        )
    }

    /// The tables after an empty directory was created under `name` in
    /// directory `dir`.
    pub open spec fn with_created_dir(self, dir: int, name: Seq<char>) -> FsView {
        self.with_new_dir().with_entry(dir, name, Entry::Directory(self.dirs.len() as usize))
    }

    /// The tables after the entry called `name` was removed from directory
    /// `dir`. A removed file gives up its storage.
    pub open spec fn with_removed(self, dir: int, name: Seq<char>) -> FsView {
        match self.lookup(dir, name) {
            Some(Entry::File(f)) => self.without_entry(dir, name).with_file(f as int, None),
            Some(Entry::Directory(_)) => self.without_entry(dir, name),
            None => self,
        }
    }
}

impl FsView {
    /// The tables after every directory along `parts` was created below
    /// `dir` where missing, with the outcome. Creation stops at the first
    /// name that a file already has.
    pub open spec fn with_dirs_made(self, dir: int, parts: Seq<Seq<char>>) -> (
        FsView,
        Result<(), FsError>,
    )
        decreases parts.len(),
    {
        if parts.len() == 0 {
            (self, Ok(()))
        } else if !(0 <= dir < self.dirs.len()) {
            (self, Err(FsError::NotFound))
        } else {
            match self.lookup(dir, parts[0]) {
                Some(Entry::Directory(d)) => self.with_dirs_made(d as int, parts.drop_first()),
                Some(Entry::File(_)) => (self, Err(FsError::AlreadyExists)),
                None => self.with_created_dir(dir, parts[0]).with_dirs_made(
                    self.dirs.len() as int,
                    parts.drop_first(),
                ),
            }
        }
    }

    /// The tables after `/data.bin` was made a read-only file over `bytes`.
    /// An existing file keeps its slot; anything else of that name is
    /// replaced.
    pub open spec fn with_data_bin(self, bytes: Seq<u8>) -> FsView {
        let file = FileView { bytes, read_only: true };
        match self.lookup(0, "data.bin"@) {
            Some(Entry::File(f)) => self.with_file(f as int, Some(file)),
            Some(Entry::Directory(_)) => self.without_entry(0, "data.bin"@).with_new_file(
                file,
            ).with_entry(0, "data.bin"@, Entry::File(self.files.len() as usize)),
            None => self.with_new_file(file).with_entry(
                0,
                "data.bin"@,
                Entry::File(self.files.len() as usize),
            ),
        }
    }

    /// The tables after the entry at `path` was removed, where there is one.
    pub open spec fn with_path_removed(self, path: Seq<char>) -> FsView {
        match self.resolve(path) {
            Ok((dir, leaf)) => self.with_removed(dir, leaf),
            Err(_) => self,
        }
    }

    /// The bytes of the file that `path` names.
    pub open spec fn contents_at(self, path: Seq<char>) -> Result<Seq<u8>, FsError> {
        match self.file_at(path) {
            Ok(f) => Ok(self.files[f]->0.bytes),
            Err(e) => Err(e),
        }
    }
}

/// A lookup in a well-formed filesystem yields an entry that points into the
/// tables.
pub proof fn lemma_lookup_in_range(fs: FsView, dir: int, name: Seq<char>)
    requires
        fs.wf(),
    ensures
        match fs.lookup(dir, name) {
            Some(Entry::File(f)) => f < fs.files.len(),
            Some(Entry::Directory(d)) => d < fs.dirs.len(),
            None => true,
        },
{
    if fs.lookup(dir, name) is Some {
        let i = index_of_name(fs.dirs[dir], name);
        assert(0 <= i < fs.dirs[dir].len());
        let e = fs.dirs[dir][i];
    }
}

/// Bytes written to a growable file are the bytes read back from the place
/// they were written to.
pub proof fn lemma_write_then_read(bytes: Seq<u8>, pos: int, data: Seq<u8>)
    requires
        0 <= pos,
    ensures
        read_at(write_at(bytes, pos, data), pos, data.len() as int) == data,
        write_at(bytes, pos, data).len() == if pos + data.len() > bytes.len() {
            pos + data.len()
        } else {
            bytes.len() as int
        },
{
    let written = write_at(bytes, pos, data);
    assert(read_at(written, pos, data.len() as int) =~= data);
}

/// In a directory with unique names, the entry found under a name is the
/// one at whatever position holds that name.
pub proof fn lemma_index_of_name_is(entries: Seq<DirEntryView>, name: Seq<char>, i: int)
    requires
        names_unique(entries),
        0 <= i < entries.len(),
        entries[i].name == name,
    ensures
        has_name(entries, name),
        index_of_name(entries, name) == i,
{
    let j = index_of_name(entries, name);
    assert(entries[j].name == entries[i].name);
}

/// Adding an entry under a free name changes the answer of exactly one
/// lookup.
pub proof fn lemma_lookup_after_entry(
    fs: FsView,
    dir: int,
    name: Seq<char>,
    entry: Entry,
    other_dir: int,
    other_name: Seq<char>,
)
    requires
        fs.wf(),
        0 <= dir < fs.dirs.len(),
        fs.lookup(dir, name) is None,
    ensures
        fs.with_entry(dir, name, entry).lookup(other_dir, other_name) == if other_dir == dir
            && other_name == name {
            Some(entry)
        } else {
            fs.lookup(other_dir, other_name)
        },
        forall|d: int| 0 <= d < fs.dirs.len() ==> names_unique(
            #[trigger] fs.with_entry(dir, name, entry).dirs[d],
        ),
{
    let after = fs.with_entry(dir, name, entry);
    let before_entries = fs.dirs[dir];
    let grown = before_entries.push(DirEntryView { name, entry });
    assert(after.dirs[dir] == grown);
    assert(names_unique(grown)) by {
        assert forall|i: int, j: int|
            0 <= i < grown.len() && 0 <= j < grown.len() && #[trigger] grown[i].name
                == #[trigger] grown[j].name implies i == j by {
            if i < before_entries.len() && j < before_entries.len() {
                assert(before_entries[i].name == before_entries[j].name);
            } else if i < before_entries.len() {
                assert(before_entries[i].name == name);
            } else if j < before_entries.len() {
                assert(before_entries[j].name == name);
            }
        }
    }
    assert forall|d: int| 0 <= d < fs.dirs.len() implies names_unique(
        #[trigger] after.dirs[d],
    ) by {
        if d != dir {
            assert(after.dirs[d] == fs.dirs[d]);
        }
    }
    if 0 <= other_dir < fs.dirs.len() {
        if other_dir != dir {
            assert(after.dirs[other_dir] == fs.dirs[other_dir]);
        } else if other_name == name {
            lemma_index_of_name_is(grown, name, before_entries.len() as int);
        } else if has_name(before_entries, other_name) {
            let i = index_of_name(before_entries, other_name);
            assert(grown[i].name == other_name);
            lemma_index_of_name_is(grown, other_name, i);
        } else {
            if has_name(grown, other_name) {
                let i = index_of_name(grown, other_name);
                if i < before_entries.len() {
                    assert(before_entries[i].name == other_name);
                }
            }
        }
    }
}

/// A walk that succeeds is not disturbed by a new entry under a name that
/// was free: it still arrives at the same directory.
pub proof fn lemma_walk_after_entry(
    fs: FsView,
    dir: int,
    name: Seq<char>,
    entry: Entry,
    start: int,
    parts: Seq<Seq<char>>,
)
    requires
        fs.wf(),
        0 <= dir < fs.dirs.len(),
        fs.lookup(dir, name) is None,
        fs.walk(start, parts) is Ok,
    ensures
        fs.with_entry(dir, name, entry).walk(start, parts) == fs.walk(start, parts),
    decreases parts.len(),
{
    let after = fs.with_entry(dir, name, entry);
    if parts.len() > 0 {
        lemma_lookup_after_entry(fs, dir, name, entry, start, parts[0]);
        match fs.lookup(start, parts[0]) {
            Some(Entry::Directory(d)) => {
                lemma_walk_after_entry(fs, dir, name, entry, d as int, parts.drop_first());
            },
            _ => {},
        }
    }
}

/// A file that was created at a path is found at that path, holding the
/// bytes it was created with. The file table must be one that a machine
/// can hold.
pub proof fn lemma_created_file_is_found(fs: FsView, path: Seq<char>, data: Seq<u8>)
    requires
        fs.wf(),
        fs.files.len() <= usize::MAX,
        fs.resolve(path) is Ok,
        fs.lookup(fs.resolve(path)->Ok_0.0, fs.resolve(path)->Ok_0.1) is None,
    ensures
        fs.with_created_file(fs.resolve(path)->Ok_0.0, fs.resolve(path)->Ok_0.1, data).contents_at(
            path,
        ) == Ok::<Seq<u8>, FsError>(data),
        fs.with_created_file(fs.resolve(path)->Ok_0.0, fs.resolve(path)->Ok_0.1, data).file_at(path)
            == Ok::<int, FsError>(fs.files.len() as int),
{
    let (dir, leaf) = fs.resolve(path)->Ok_0;
    let parts = path_components(path);
    let with_file = fs.with_new_file(FileView { bytes: data, read_only: false });
    let entry = Entry::File(fs.files.len() as usize);
    let after = fs.with_created_file(dir, leaf, data);
    lemma_walk_in_range(fs, 0, parts.drop_last());
    assert(with_file.dirs == fs.dirs);
    assert(with_file.wf());
    lemma_same_dirs_same_walk(fs, with_file, 0, parts.drop_last());
    assert(with_file.lookup(dir, leaf) is None);
    lemma_walk_after_entry(with_file, dir, leaf, entry, 0, parts.drop_last());
    lemma_lookup_after_entry(with_file, dir, leaf, entry, dir, leaf);
    assert(after == with_file.with_entry(dir, leaf, entry));
    assert(after.resolve(path) == Ok::<(int, Seq<char>), FsError>((dir, leaf)));
    assert(after.files[fs.files.len() as int] == Some(FileView { bytes: data, read_only: false }));
}

/// A walk that succeeds ends at a directory of the table.
pub proof fn lemma_walk_in_range(fs: FsView, start: int, parts: Seq<Seq<char>>)
    ensures
        fs.walk(start, parts) matches Ok(d) ==> 0 <= d < fs.dirs.len(),
    decreases parts.len(),
{
    if parts.len() > 0 {
        match fs.lookup(start, parts[0]) {
            Some(Entry::Directory(d)) => {
                lemma_walk_in_range(fs, d as int, parts.drop_first());
            },
            _ => {},
        }
    }
}

/// Walks depend on the directories only.
pub proof fn lemma_same_dirs_same_walk(a: FsView, b: FsView, start: int, parts: Seq<Seq<char>>)
    requires
        a.dirs == b.dirs,
    ensures
        a.walk(start, parts) == b.walk(start, parts),
    decreases parts.len(),
{
    if parts.len() > 0 {
        match a.lookup(start, parts[0]) {
            Some(Entry::Directory(d)) => {
                lemma_same_dirs_same_walk(a, b, d as int, parts.drop_first());
            },
            _ => {},
        }
    }
}

/// Writing through a handle changes the bytes that the file's path reads
/// back, and nothing about where paths lead.
pub proof fn lemma_written_file_reads_back(
    fs: FsView,
    path: Seq<char>,
    position: int,
    data: Seq<u8>,
)
    requires
        fs.file_at(path) is Ok,
        0 <= position,
    ensures
        ({
            let id = fs.file_at(path)->Ok_0;
            let written = write_at(fs.files[id]->0.bytes, position, data);
            fs.with_file(id, Some(FileView { bytes: written, read_only: false })).contents_at(path)
                == Ok::<Seq<u8>, FsError>(written)
        }),
{
    let id = fs.file_at(path)->Ok_0;
    let written = write_at(fs.files[id]->0.bytes, position, data);
    let after = fs.with_file(id, Some(FileView { bytes: written, read_only: false }));
    lemma_same_dirs_same_walk(fs, after, 0, path_components(path).drop_last());
}

} // verus!

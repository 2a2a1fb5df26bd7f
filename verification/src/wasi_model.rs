//! The WASI host in plain values: what its state holds, and what each call
//! returns and leaves behind.

use crate::emission::descriptor_in;
use crate::layout::{dirent_layout, fdstat_layout, filestat_layout, DIRENT_HEAD_SIZE};
use crate::fs_model::{read_at, write_at, DirEntryView, FileView, FsView};
use crate::memory_fs::Entry;
use crate::text::{has_prefix, has_suffix, normalized_path, path_components};
use crate::wasi::{
    Errno, Filetype, FIRST_FREE_FD, MAX_CAPTURE_BYTES, OFLAG_CREAT, OFLAG_DIRECTORY, OFLAG_EXCL,
    OFLAG_TRUNC, PREOPEN_FD, RIGHT_FD_WRITE,
};
use vstd::prelude::*;
use vstd::utf8::encode_utf8;

verus! {

/// What a descriptor stands for, in plain values.
pub enum HandleView {
    File { id: usize, position: usize, watched: Option<Seq<char>> },
    Directory { id: usize },
    Stdin,
    Stdout,
    Stderr,
}

/// Closing a descriptor on this path publishes table schemas and rows.
pub open spec fn is_metadata_path(path: Seq<char>) -> bool {
    has_prefix(path, "/metadata/"@) && has_suffix(path, ".json"@)
}

/// Closing a descriptor on this path publishes a sub-content emission.
pub open spec fn is_subcontent_descriptor_path(path: Seq<char>) -> bool {
    has_prefix(path, "/subcontent/metadata_"@) && has_suffix(path, ".json"@)
}

/// This path holds the payload of a sub-content emission.
pub open spec fn is_subcontent_data_path(path: Seq<char>) -> bool {
    has_prefix(path, "/subcontent/data_"@)
}

/// The path to remember for a descriptor opened on `normalized`, if closing
/// it will matter.
pub open spec fn watched_path(normalized: Seq<char>) -> Option<Seq<char>> {
    if is_metadata_path(normalized) || is_subcontent_descriptor_path(normalized)
        || is_subcontent_data_path(normalized) {
        Some(normalized)
    } else {
        None
    }
}

/// The host's state in plain values.
pub struct WasiView {
    pub fs: FsView,
    pub fds: Map<u32, HandleView>,
    pub next_fd: u32,
    pub env: Seq<(Seq<char>, Seq<char>)>,
    pub stdout: Seq<u8>,
    pub stderr: Seq<u8>,
    pub stdout_truncated: bool,
    pub stderr_truncated: bool,
}

/// What `path_open` decides: the error number, the handle behind the new
/// descriptor where one is made, and the filesystem afterwards.
pub struct OpenOutcome {
    pub errno: Errno,
    pub handle: Option<HandleView>,
    pub fs: FsView,
}

impl WasiView {
    /// Descriptors in use lie below the next one to hand out, and the
    /// captured output respects its bound.
    pub open spec fn wf(self) -> bool {
        &&& self.fs.wf()
        &&& self.next_fd >= FIRST_FREE_FD
        &&& forall|fd: u32| self.fds.contains_key(fd) ==> fd < self.next_fd
        &&& self.stdout.len() <= MAX_CAPTURE_BYTES
        &&& self.stderr.len() <= MAX_CAPTURE_BYTES
    }

    /// An open that fails with `errno` and changes nothing.
    pub open spec fn open_failure(self, errno: Errno) -> OpenOutcome {
        OpenOutcome { errno, handle: None, fs: self.fs }
    }

    /// Opening `path` as a directory.
    pub open spec fn open_directory_outcome(self, path: Seq<char>) -> OpenOutcome {
        match self.fs.resolve(path) {
            Ok((dir, leaf)) => match self.fs.lookup(dir, leaf) {
                Some(Entry::Directory(d)) => OpenOutcome {
                    errno: Errno::Success,
                    handle: Some(HandleView::Directory { id: d }),
                    fs: self.fs,
                },
                _ => self.open_failure(Errno::Noent),
            },
            Err(_) => self.open_failure(
                if path_components(path).len() == 0 {
                    Errno::Inval
                } else {
                    Errno::Noent
                },
            ),
        }
    }

    /// Opening the existing file in slot `f`.
    pub open spec fn open_existing_outcome(
        self,
        f: int,
        path: Seq<char>,
        oflags: u16,
        rights: u64,
    ) -> OpenOutcome {
        let truncate = oflags & OFLAG_TRUNC != 0;
        if oflags & OFLAG_EXCL != 0 && oflags & OFLAG_CREAT != 0 {
            self.open_failure(Errno::Exist)
        } else if self.fs.files[f]->0.read_only && (truncate || rights & RIGHT_FD_WRITE != 0) {
            self.open_failure(Errno::Acces)
        } else {
            OpenOutcome {
                errno: Errno::Success,
                handle: Some(
                    HandleView::File {
                        id: f as usize,
                        position: 0,
                        watched: watched_path(normalized_path(path)),
                    },
                ),
                fs: if truncate {
                    self.fs.with_file(f, Some(FileView { bytes: Seq::empty(), read_only: false }))
                } else {
                    self.fs
                },
            }
        }
    }

    /// Creating and opening a file at `path`.
    pub open spec fn open_created_outcome(self, path: Seq<char>) -> OpenOutcome {
        match self.fs.resolve(path) {
            Ok((dir, leaf)) => if self.fs.lookup(dir, leaf) is None {
                OpenOutcome {
                    errno: Errno::Success,
                    handle: Some(
                        HandleView::File {
                            id: self.fs.files.len() as usize,
                            position: 0,
                            watched: watched_path(normalized_path(path)),
                        },
                    ),
                    fs: self.fs.with_created_file(dir, leaf, Seq::empty()),
                }
            } else {
                self.open_failure(Errno::Io)
            },
            Err(_) => self.open_failure(Errno::Io),
        }
    }

    /// What `path_open` decides. Only the preopened root can be opened from,
    /// and only while a descriptor is left to hand out; the directory bit
    /// asks for a directory; an existing file is opened unless creation is
    /// exclusive, or writing is asked of a read-only file; a missing file is
    /// created where creation is asked for, and otherwise the path is tried
    /// as a directory.
    pub open spec fn open_outcome(self, dirfd: u32, path: Seq<char>, oflags: u16, rights: u64)
        -> OpenOutcome {
        if dirfd != PREOPEN_FD {
            self.open_failure(Errno::Badf)
        } else if self.next_fd == u32::MAX {
            self.open_failure(Errno::Again)
        } else if oflags & OFLAG_DIRECTORY != 0 {
            self.open_directory_outcome(path)
        } else {
            match self.fs.file_at(path) {
                Ok(f) => self.open_existing_outcome(f, path, oflags, rights),
                Err(_) => if oflags & OFLAG_CREAT != 0 {
                    self.open_created_outcome(path)
                } else {
                    self.open_directory_outcome(path)
                },
            }
        }
    }
}

/// The host after `path_open` decided `outcome`: a new descriptor where a
/// handle was made, and nothing but the filesystem touched otherwise.
pub open spec fn opened(before: WasiView, after: WasiView, outcome: OpenOutcome, errno: Errno)
    -> bool {
    &&& errno == outcome.errno
    &&& match outcome.handle {
        Some(handle) => after == (WasiView {
            fs: outcome.fs,
            fds: before.fds.insert(before.next_fd, handle),
            next_fd: (before.next_fd + 1) as u32,
            ..before
        }),
        None => after == (WasiView { fs: outcome.fs, ..before }),
    }
}

/// The descriptor reported by `path_open`: the new one on success, the
/// caller's value untouched otherwise.
pub open spec fn fd_result(before: WasiView, fd_before: u32, fd_after: u32, errno: Errno) -> bool {
    if errno == Errno::Success {
        fd_after == before.next_fd
    } else {
        fd_after == fd_before
    }
}

/// The environment in plain values.
pub open spec fn env_view(env: Seq<(String, String)>) -> Seq<(Seq<char>, Seq<char>)> {
    Seq::new(env.len(), |i: int| (env[i].0@, env[i].1@))
}

/// The descriptor table of a fresh host: the three standard streams and the
/// preopened root directory.
pub open spec fn initial_fds() -> Map<u32, HandleView> {
    Map::<u32, HandleView>::empty().insert(0, HandleView::Stdin).insert(
        1,
        HandleView::Stdout,
    ).insert(2, HandleView::Stderr).insert(3, HandleView::Directory { id: 0 })
}

/// The captured output after `data` was offered: as much of it as the bound
/// leaves room for.
pub open spec fn captured_after(captured: Seq<u8>, data: Seq<u8>) -> Seq<u8> {
    if captured.len() + data.len() <= MAX_CAPTURE_BYTES {
        captured + data
    } else {
        captured + data.take(MAX_CAPTURE_BYTES - captured.len())
    }
}

/// Offering `data` makes the captured output exceed its bound, so that bytes
/// are dropped.
pub open spec fn capture_overflows(captured: Seq<u8>, data: Seq<u8>) -> bool {
    captured.len() + data.len() > MAX_CAPTURE_BYTES
}

/// The position that a WASI seek asks for.
pub open spec fn wasi_seek_target(whence: u8, offset: i64, position: int, len: int) -> int {
    if whence == 0 {
        offset as int
    } else if whence == 1 {
        position + offset
    } else {
        len + offset
    }
}

/// A cursor position that a handle can take.
pub open spec fn valid_position(target: int) -> bool {
    0 <= target <= usize::MAX && target <= i64::MAX
}

impl WasiView {
    /// The handle behind a descriptor.
    pub open spec fn handle(self, fd: u32) -> Option<HandleView> {
        if self.fds.contains_key(fd) {
            Some(self.fds[fd])
        } else {
            None
        }
    }

    /// The state once the file handle behind `fd` has its cursor at
    /// `position`.
    pub open spec fn with_cursor(self, fd: u32, position: int) -> WasiView {
        WasiView {
            fds: self.fds.insert(
                fd,
                HandleView::File {
                    id: self.fds[fd]->File_id,
                    position: position as usize,
                    watched: self.fds[fd]->File_watched,
                },
            ),
            ..self
        }
    }

    /// What `fd_read` of at most `max` bytes returns and leaves behind. A
    /// file yields the bytes at its cursor; standard input is always at its
    /// end; nothing else can be read.
    pub open spec fn read_outcome(self, fd: u32, max: usize) -> (Errno, Seq<u8>, WasiView) {
        match self.handle(fd) {
            Some(HandleView::File { id, position, watched }) => match self.fs.file(id as int) {
                Some(f) => {
                    let data = read_at(f.bytes, position as int, max as int);
                    (Errno::Success, data, self.with_cursor(fd, position + data.len()))
                },
                None => (Errno::Io, Seq::empty(), self),
            },
            Some(HandleView::Stdin) => (Errno::Success, Seq::empty(), self),
            _ => (Errno::Badf, Seq::empty(), self),
        }
    }

    /// What `fd_write` of `data` reports as written and leaves behind. A
    /// file takes the bytes at its cursor; the standard streams capture them
    /// up to the bound and report all of them as written.
    pub open spec fn write_outcome(self, fd: u32, data: Seq<u8>) -> (Errno, int, WasiView) {
        match self.handle(fd) {
            Some(HandleView::File { id, position, watched }) => match self.fs.file(id as int) {
                Some(f) => if !f.read_only && position + data.len() <= isize::MAX {
                    (
                        Errno::Success,
                        data.len() as int,
                        WasiView {
                            fs: self.fs.with_file(
                                id as int,
                                Some(
                                    FileView {
                                        bytes: write_at(
                                            f.bytes,
                                            position as int,
                                            data,
                                        ),
                                        read_only: false,
                                    },
                                ),
                            ),
                            ..self.with_cursor(fd, position + data.len())
                        },
                    )
                } else {
                    (Errno::Io, 0, self)
                },
                None => (Errno::Io, 0, self),
            },
            Some(HandleView::Stdout) => (
                Errno::Success,
                data.len() as int,
                WasiView {
                    stdout: captured_after(self.stdout, data),
                    stdout_truncated: self.stdout_truncated || capture_overflows(self.stdout, data),
                    ..self
                },
            ),
            Some(HandleView::Stderr) => (
                Errno::Success,
                data.len() as int,
                WasiView {
                    stderr: captured_after(self.stderr, data),
                    stderr_truncated: self.stderr_truncated || capture_overflows(self.stderr, data),
                    ..self
                },
            ),
            _ => (Errno::Badf, 0, self),
        }
    }

    /// What `fd_seek` returns and leaves behind. Only files can seek; the
    /// origin must be one of the three known ones; the position asked for
    /// must be one a cursor can take.
    pub open spec fn seek_outcome(self, fd: u32, offset: i64, whence: u8) -> (
        Errno,
        int,
        WasiView,
    ) {
        match self.handle(fd) {
            Some(HandleView::File { id, position, watched }) => if whence > 2 {
                (Errno::Inval, 0, self)
            } else {
                match self.fs.file(id as int) {
                    Some(f) => {
                        let target = wasi_seek_target(
                            whence,
                            offset,
                            position as int,
                            f.bytes.len() as int,
                        );
                        if valid_position(target) {
                            (Errno::Success, target, self.with_cursor(fd, target))
                        } else {
                            (Errno::Io, 0, self)
                        }
                    },
                    None => (Errno::Io, 0, self),
                }
            },
            _ => (Errno::Badf, 0, self),
        }
    }
}

/// The payload of a sub-content emission, in plain values.
pub enum EmissionDataView {
    Bytes(Seq<u8>),
    Slice { offset: usize, length: usize },
}

/// A sub-content emission in plain values.
pub struct EmissionView {
    pub filename: Seq<char>,
    pub data: EmissionDataView,
}

/// What closing a descriptor published, in plain values.
pub struct CloseView {
    pub metadata_content: Option<Seq<u8>>,
    pub subcontent_emission: Option<EmissionView>,
}

/// A close that published nothing.
pub open spec fn nothing_published() -> CloseView {
    CloseView { metadata_content: None, subcontent_emission: None }
}

/// The part of a descriptor path that pairs it with its data file: what
/// stands between `/subcontent/metadata_` and `.json`.
pub open spec fn emission_key(path: Seq<char>) -> Seq<char> {
    let from = "/subcontent/metadata_"@.len() as int;
    let to = path.len() - ".json"@.len();
    if from <= to {
        path.subrange(from, to)
    } else {
        Seq::empty()
    }
}

/// The data file that belongs to the descriptor at `path`.
pub open spec fn data_path_for(path: Seq<char>) -> Seq<char> {
    "/subcontent/data_"@ + emission_key(path) + ".bin"@
}

/// What closing the sub-content descriptor at `path` publishes, and the
/// filesystem it leaves. The descriptor file is removed in any case. A
/// descriptor with both offset and length publishes a slice; any other
/// well-formed one publishes the bytes of its data file and removes that
/// file; a malformed descriptor, or a missing data file, publishes nothing.
pub open spec fn descriptor_close_outcome(fs: FsView, path: Seq<char>) -> (
    Option<EmissionView>,
    FsView,
) {
    let cleared = fs.with_path_removed(path);
    match fs.contents_at(path) {
        Ok(bytes) => match descriptor_in(bytes) {
            Some(descriptor) => match (descriptor.offset, descriptor.length) {
                (Some(offset), Some(length)) => (
                    Some(
                        EmissionView {
                            filename: descriptor.filename,
                            data: EmissionDataView::Slice { offset, length },
                        },
                    ),
                    cleared,
                ),
                _ => match cleared.contents_at(data_path_for(path)) {
                    Ok(payload) => (
                        Some(
                            EmissionView {
                                filename: descriptor.filename,
                                data: EmissionDataView::Bytes(payload),
                            },
                        ),
                        cleared.with_path_removed(data_path_for(path)),
                    ),
                    Err(_) => (None, cleared),
                },
            },
            None => (None, cleared),
        },
        Err(_) => (None, cleared),
    }
}

impl WasiView {
    /// What `fd_close` returns and leaves behind. The standard streams stay
    /// open. Any other open descriptor leaves the table; where it was opened
    /// on a metadata path, the file's contents are handed out and the file is
    /// removed; where it was opened on a sub-content descriptor path, the
    /// emission it describes is handed out.
    pub open spec fn close_outcome(self, fd: u32) -> (Errno, CloseView, WasiView) {
        if fd <= 2 {
            (Errno::Success, nothing_published(), self)
        } else {
            match self.handle(fd) {
                None => (Errno::Badf, nothing_published(), self),
                Some(handle) => {
                    let closed = WasiView { fds: self.fds.remove(fd), ..self };
                    match handle {
                        HandleView::File { watched: Some(path), .. } => if is_metadata_path(path) {
                            (
                                Errno::Success,
                                CloseView {
                                    metadata_content: match self.fs.contents_at(path) {
                                        Ok(bytes) => Some(bytes),
                                        Err(_) => None,
                                    },
                                    subcontent_emission: None,
                                },
                                WasiView { fs: self.fs.with_path_removed(path), ..closed },
                            )
                        } else if is_subcontent_descriptor_path(path) {
                            (
                                Errno::Success,
                                CloseView {
                                    metadata_content: None,
                                    subcontent_emission: descriptor_close_outcome(self.fs, path).0,
                                },
                                WasiView { fs: descriptor_close_outcome(self.fs, path).1, ..closed },
                            )
                        } else {
                            (Errno::Success, nothing_published(), closed)
                        },
                        _ => (Errno::Success, nothing_published(), closed),
                    }
                },
            }
        }
    }
}

/// The file type that a handle reports.
pub open spec fn handle_filetype(handle: HandleView) -> Filetype {
    match handle {
        HandleView::File { .. } => Filetype::RegularFile,
        HandleView::Directory { .. } => Filetype::Directory,
        _ => Filetype::CharacterDevice,
    }
}

/// The directory entries from position `from` on that fit into `room`
/// bytes, each in the standard layout. Entry `i` carries `i + 1` as the
/// cookie of its successor and as its inode. Serialisation stops at the
/// first entry that does not fit as a whole.
pub open spec fn readdir_layout(entries: Seq<DirEntryView>, from: int, room: int) -> Seq<u8>
    decreases entries.len() - from,
{
    if from < 0 || from >= entries.len() {
        Seq::empty()
    } else {
        let name = encode_utf8(entries[from].name);
        if name.len() > u32::MAX || DIRENT_HEAD_SIZE + name.len() > room {
            Seq::empty()
        } else {
            dirent_layout(
                (from + 1) as u64,
                (from + 1) as u64,
                name,
                if entries[from].entry is Directory {
                    Filetype::Directory
                } else {
                    Filetype::RegularFile
                },
            ) + readdir_layout(entries, from + 1, room - DIRENT_HEAD_SIZE - name.len())
        }
    }
}

/// One variable of the environment as the guest sees it: `KEY=VALUE` and a
/// terminating zero byte.
pub open spec fn environ_entry(key: Seq<char>, value: Seq<char>) -> Seq<u8> {
    encode_utf8(key) + seq![61u8] + encode_utf8(value) + seq![0u8]
}

/// The first `n` variables of the environment, one after the other.
pub open spec fn environ_block(env: Seq<(Seq<char>, Seq<char>)>, n: int) -> Seq<u8>
    decreases n,
{
    if n <= 0 {
        Seq::empty()
    } else {
        environ_block(env, n - 1) + environ_entry(env[n - 1].0, env[n - 1].1)
    }
}

impl WasiView {
    /// What `fd_filestat_get` reports: file type and size of whatever is
    /// behind the descriptor.
    pub open spec fn filestat_outcome(self, fd: u32) -> (Errno, Seq<u8>) {
        match self.handle(fd) {
            None => (Errno::Badf, Seq::empty()),
            Some(HandleView::File { id, .. }) => (
                Errno::Success,
                filestat_layout(
                    Filetype::RegularFile,
                    match self.fs.file(id as int) {
                        Some(f) => f.bytes.len() as u64,
                        None => 0,
                    },
                ),
            ),
            Some(handle) => (Errno::Success, filestat_layout(handle_filetype(handle), 0)),
        }
    }

    /// What `fd_fdstat_get` reports: the file type behind the descriptor,
    /// with every right granted.
    pub open spec fn fdstat_outcome(self, fd: u32) -> (Errno, Seq<u8>) {
        match self.handle(fd) {
            None => (Errno::Badf, Seq::empty()),
            Some(handle) => (Errno::Success, fdstat_layout(handle_filetype(handle))),
        }
    }

    /// What `path_filestat_get` reports: a file with its size, or a
    /// directory.
    pub open spec fn path_filestat_outcome(self, dirfd: u32, path: Seq<char>) -> (Errno, Seq<u8>) {
        if dirfd != PREOPEN_FD {
            (Errno::Badf, Seq::empty())
        } else {
            match self.fs.file_at(path) {
                Ok(f) => (
                    Errno::Success,
                    filestat_layout(Filetype::RegularFile, self.fs.files[f]->0.bytes.len() as u64),
                ),
                Err(_) => match self.fs.walk(0, path_components(path)) {
                    Ok(_) => (Errno::Success, filestat_layout(Filetype::Directory, 0)),
                    Err(_) => (Errno::Noent, Seq::empty()),
                },
            }
        }
    }

    /// What `fd_readdir` reports for a buffer of `room` bytes, starting at
    /// the entry that `cookie` names.
    pub open spec fn readdir_outcome(self, fd: u32, room: usize, cookie: u64) -> (Errno, Seq<u8>) {
        match self.handle(fd) {
            None => (Errno::Badf, Seq::empty()),
            Some(HandleView::Directory { id }) => (
                Errno::Success,
                if id < self.fs.dirs.len() {
                    readdir_layout(self.fs.dirs[id as int], cookie as int, room as int)
                } else {
                    Seq::empty()
                },
            ),
            Some(_) => (Errno::Notdir, Seq::empty()),
        }
    }

    /// The environment fits what 32-bit counters can report.
    pub open spec fn environ_fits(self) -> bool {
        self.env.len() <= u32::MAX && environ_block(self.env, self.env.len() as int).len()
            <= u32::MAX
    }
}

/// The environment block only grows as variables are added.
pub proof fn lemma_environ_block_grows(env: Seq<(Seq<char>, Seq<char>)>, i: int, j: int)
    requires
        0 <= i <= j,
    ensures
        environ_block(env, i).len() <= environ_block(env, j).len(),
    decreases j - i,
{
    if i < j {
        lemma_environ_block_grows(env, i, j - 1);
    }
}

/// Everything offered to a stream by the first `n` writes, in order.
pub open spec fn offered(writes: Seq<Seq<u8>>, n: int) -> Seq<u8>
    decreases n,
{
    if n <= 0 {
        Seq::empty()
    } else {
        offered(writes, n - 1) + writes[n - 1]
    }
}

/// What is captured of a stream after the first `n` writes, starting from
/// nothing, and whether bytes were dropped.
pub open spec fn captured_of(writes: Seq<Seq<u8>>, n: int) -> (Seq<u8>, bool)
    decreases n,
{
    if n <= 0 {
        (Seq::empty(), false)
    } else {
        let before = captured_of(writes, n - 1);
        (
            captured_after(before.0, writes[n - 1]),
            before.1 || capture_overflows(before.0, writes[n - 1]),
        )
    }
}

/// The captured output is the first megabyte of what was offered, and the
/// truncation flag is set exactly when more than that was offered.
pub proof fn lemma_capture_keeps_bounded_prefix(writes: Seq<Seq<u8>>, n: int)
    requires
        0 <= n <= writes.len(),
    ensures
        captured_of(writes, n).0 == if offered(writes, n).len() <= MAX_CAPTURE_BYTES {
            offered(writes, n)
        } else {
            offered(writes, n).take(MAX_CAPTURE_BYTES as int)
        },
        captured_of(writes, n).1 == (offered(writes, n).len() > MAX_CAPTURE_BYTES),
        captured_of(writes, n).1 ==> captured_of(writes, n).0.len() == MAX_CAPTURE_BYTES,
    decreases n,
{
    if n > 0 {
        lemma_capture_keeps_bounded_prefix(writes, n - 1);
        let before = captured_of(writes, n - 1);
        let all_before = offered(writes, n - 1);
        let data = writes[n - 1];
        let all = offered(writes, n);
        if all.len() <= MAX_CAPTURE_BYTES {
            assert(captured_of(writes, n).0 =~= all);
        } else if all_before.len() <= MAX_CAPTURE_BYTES {
            assert(captured_of(writes, n).0 =~= all.take(MAX_CAPTURE_BYTES as int));
        } else {
            assert(data.take(0) =~= Seq::<u8>::empty());
            assert(captured_of(writes, n).0 =~= all.take(MAX_CAPTURE_BYTES as int));
        }
    }
}

/// The path of the metadata file called `name`.
pub open spec fn metadata_path_for(name: Seq<char>) -> Seq<char> {
    "/metadata/"@ + name
}

/// What the sweep of the metadata directory collects from the entries at
/// position `i` and beyond, and the filesystem it leaves: every file whose
/// name ends in `.json` is read, in listing order, and removed.
pub open spec fn sweep_outcome(fs: FsView, entries: Seq<DirEntryView>, i: int) -> (
    Seq<Seq<u8>>,
    FsView,
)
    decreases entries.len() - i,
{
    if i < 0 || i >= entries.len() {
        (Seq::empty(), fs)
    } else if entries[i].entry is File && has_suffix(entries[i].name, ".json"@) {
        let path = metadata_path_for(entries[i].name);
        let rest = sweep_outcome(fs.with_path_removed(path), entries, i + 1);
        (
            (match fs.contents_at(path) {
                Ok(bytes) => seq![bytes],
                Err(_) => Seq::empty(),
            }) + rest.0,
            rest.1,
        )
    } else {
        sweep_outcome(fs, entries, i + 1)
    }
}

impl WasiView {
    /// What the end-of-call sweep collects and leaves behind: the contents
    /// of the metadata files that the guest left unclosed.
    pub open spec fn metadata_sweep(self) -> (Seq<Seq<u8>>, FsView) {
        match self.fs.walk(0, path_components("/metadata"@)) {
            Ok(dir) => sweep_outcome(self.fs, self.fs.dirs[dir], 0),
            Err(_) => (Seq::empty(), self.fs),
        }
    }
}

/// The byte strings of a list of buffers.
pub open spec fn buffers_view(buffers: Seq<Vec<u8>>) -> Seq<Seq<u8>> {
    Seq::new(buffers.len(), |i: int| buffers[i]@)
}

} // verus!

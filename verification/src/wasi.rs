//! The WASI preview-1 host, stated over the in-memory filesystem: the file
//! descriptor table, opening and closing, reads, writes and seeks, output
//! capture, and the byte layouts that guests read back.

use crate::emission::{parse_subcontent_descriptor, SubcontentDescriptor};
use crate::layout::{
    dirent_layout, encode_fdstat, encode_filestat, encode_prestat, prestat_layout, push_dirent,
    DIRENT_HEAD_SIZE,
};
use crate::memory_fs::{FsError, MemoryDirectory, MemoryFile, MemoryFilesystem, SeekFrom};
use crate::shared_buffer::bytes_contents;
use crate::text::{normalize_path, path_components, split_path, str_ends_with, str_starts_with};
use crate::wasi_model::{
    buffers_view, captured_after, capture_overflows, data_path_for, descriptor_close_outcome,
    env_view, environ_block, environ_entry, fd_result, initial_fds,
    lemma_environ_block_grows, opened, readdir_layout, sweep_outcome, watched_path, CloseView,
    EmissionDataView, EmissionView, HandleView, WasiView,
};
use bytes::Bytes;
use std::collections::HashMap;
use vstd::prelude::*;
use vstd::string::{StrSliceExecFns, StringExecFns};
use vstd::utf8::encode_utf8;

verus! {

/// A file descriptor.
pub type Fd = u32;

/// The descriptor of the preopened root directory.
pub const PREOPEN_FD: u32 = 3;

/// The first descriptor handed out by `path_open`.
pub const FIRST_FREE_FD: u32 = 4;

/// The most bytes kept of each of standard output and standard error.
pub const MAX_CAPTURE_BYTES: usize = 1048576;

/// The `oflags` bit that asks for creation.
pub const OFLAG_CREAT: u16 = 1;

/// The `oflags` bit that asks for a directory.
pub const OFLAG_DIRECTORY: u16 = 2;

/// The `oflags` bit that makes creation fail on an existing file.
pub const OFLAG_EXCL: u16 = 4;

/// The `oflags` bit that empties the file on open.
pub const OFLAG_TRUNC: u16 = 8;

/// The rights bit that asks for permission to write.
pub const RIGHT_FD_WRITE: u64 = 64;

/// WASI file types.
#[derive(Copy, Clone, Debug, PartialEq, Eq, Structural)]
pub enum Filetype {
    Unknown,
    BlockDevice,
    CharacterDevice,
    Directory,
    RegularFile,
    SocketDgram,
    SocketStream,
    SymbolicLink,
}

impl Filetype {
    /// The number that stands for the file type on the wire.
    pub open spec fn spec_code(self) -> u8 {
        match self {
            Filetype::Unknown => 0,
            Filetype::BlockDevice => 1,
            Filetype::CharacterDevice => 2,
            Filetype::Directory => 3,
            Filetype::RegularFile => 4,
            Filetype::SocketDgram => 5,
            Filetype::SocketStream => 6,
            Filetype::SymbolicLink => 7,
        }
    }

    /// The number that stands for the file type on the wire.
    #[verifier::when_used_as_spec(spec_code)]
    pub fn code(self) -> (c: u8)
        ensures
            c == self.spec_code(),
    {
        match self {
            Filetype::Unknown => 0,
            Filetype::BlockDevice => 1,
            Filetype::CharacterDevice => 2,
            Filetype::Directory => 3,
            Filetype::RegularFile => 4,
            Filetype::SocketDgram => 5,
            Filetype::SocketStream => 6,
            Filetype::SymbolicLink => 7,
        }
    }
}

/// WASI error numbers.
#[derive(Copy, Clone, Debug, PartialEq, Eq, Structural)]
pub enum Errno {
    Success,
    TooBig,
    Acces,
    Again,
    Badf,
    Exist,
    Inval,
    Io,
    Isdir,
    Noent,
    Notdir,
    Nosys,
}

impl Errno {
    /// The number that stands for the error on the wire.
    pub open spec fn spec_code(self) -> u16 {
        match self {
            Errno::Success => 0,
            Errno::TooBig => 1,
            Errno::Acces => 2,
            Errno::Again => 6,
            Errno::Badf => 8,
            Errno::Exist => 20,
            Errno::Inval => 28,
            Errno::Io => 29,
            Errno::Isdir => 31,
            Errno::Noent => 44,
            Errno::Notdir => 54,
            Errno::Nosys => 52,
        }
    }

    /// The number that stands for the error on the wire.
    #[verifier::when_used_as_spec(spec_code)]
    pub fn code(self) -> (c: u16)
        ensures
            c == self.spec_code(),
    {
        match self {
            Errno::Success => 0,
            Errno::TooBig => 1,
            Errno::Acces => 2,
            Errno::Again => 6,
            Errno::Badf => 8,
            Errno::Exist => 20,
            Errno::Inval => 28,
            Errno::Io => 29,
            Errno::Isdir => 31,
            Errno::Noent => 44,
            Errno::Notdir => 54,
            Errno::Nosys => 52,
        }
    }
}

/// What a descriptor stands for.
#[derive(Debug)]
pub enum FileHandle {
    /// An open file, with the normalized path where closing it publishes
    /// something.
    File(MemoryFile, Option<String>),
    /// An open directory.
    Directory(MemoryDirectory),
    Stdin,
    Stdout,
    Stderr,
}

impl View for FileHandle {
    type V = HandleView;

    open spec fn view(&self) -> HandleView {
        match *self {
            FileHandle::File(file, watched) => HandleView::File {
                id: file.id,
                position: file.position,
                watched: match watched {
                    Some(path) => Some(path@),
                    None => None,
                },
            },
            FileHandle::Directory(dir) => HandleView::Directory { id: dir.id },
            FileHandle::Stdin => HandleView::Stdin,
            FileHandle::Stdout => HandleView::Stdout,
            FileHandle::Stderr => HandleView::Stderr,
        }
    }
}

/// Decides whether an opened path is one whose close the host acts on.
pub fn should_track_path(path: &str) -> (r: Option<String>)
    ensures
        match watched_path(path@) {
            Some(p) => r matches Some(s) && s@ == p,
            None => r is None,
        },
{
    if str_starts_with(path, "/metadata/") && str_ends_with(path, ".json") {
        Some(path.to_owned())
    } else if str_starts_with(path, "/subcontent/metadata_") && str_ends_with(path, ".json") {
        Some(path.to_owned())
    } else if str_starts_with(path, "/subcontent/data_") {
        Some(path.to_owned())
    } else {
        None
    }
}

/// The WASI host of one module instance: its filesystem, descriptor table,
/// environment and captured output.
#[derive(Debug)]
pub struct WasiCtx {
    pub filesystem: MemoryFilesystem,
    file_table: HashMap<u32, FileHandle>,
    next_fd: u32,
    env_vars: Vec<(String, String)>,
    stdout_capture: Vec<u8>,
    stderr_capture: Vec<u8>,
    stdout_truncated: bool,
    stderr_truncated: bool,
}

impl View for WasiCtx {
    type V = WasiView;

    closed spec fn view(&self) -> WasiView {
        WasiView {
            fs: self.filesystem@,
            fds: Map::new(
                |fd: u32| self.file_table@.contains_key(fd),
                |fd: u32| self.file_table@[fd]@,
            ),
            next_fd: self.next_fd,
            env: env_view(self.env_vars@),
            stdout: self.stdout_capture@,
            stderr: self.stderr_capture@,
            stdout_truncated: self.stdout_truncated,
            stderr_truncated: self.stderr_truncated,
        }
    }
}

impl WasiCtx {
    /// The host's state is well formed.
    pub open spec fn wf(&self) -> bool {
        self@.wf()
    }

    /// A host over `filesystem` with the given environment, nothing captured
    /// and only the standard descriptors open.
    pub fn new(filesystem: MemoryFilesystem, env_vars: Vec<(String, String)>) -> (ctx: Self)
        requires
            filesystem.wf(),
        ensures
            ctx.wf(),
            ctx@ == (WasiView {
                fs: filesystem@,
                fds: initial_fds(),
                next_fd: FIRST_FREE_FD,
                env: env_view(env_vars@),
                stdout: Seq::empty(),
                stderr: Seq::empty(),
                stdout_truncated: false,
                stderr_truncated: false,
            }),
    {
        let mut file_table: HashMap<u32, FileHandle> = HashMap::new();
        file_table.insert(0, FileHandle::Stdin);
        file_table.insert(1, FileHandle::Stdout);
        file_table.insert(2, FileHandle::Stderr);
        file_table.insert(3, FileHandle::Directory(filesystem.root()));
        let ctx = WasiCtx {
            filesystem,
            file_table,
            next_fd: 4,
            env_vars,
            stdout_capture: Vec::new(),
            stderr_capture: Vec::new(),
            stdout_truncated: false,
            stderr_truncated: false,
        };
        proof {
            assert(ctx@.fds =~= initial_fds());
        }
        ctx
    }

    /// Puts `handle` behind the next free descriptor.
    fn install(&mut self, handle: FileHandle) -> (fd: u32)
        requires
            old(self).wf(),
            old(self)@.next_fd < u32::MAX,
        ensures
            final(self).wf(),
            fd == old(self)@.next_fd,
            final(self)@ == (WasiView {
                fds: old(self)@.fds.insert(fd, handle@),
                next_fd: (fd + 1) as u32,
                ..old(self)@
            }),
    {
        let fd: u32 = self.next_fd;
        self.file_table.insert(fd, handle);
        self.next_fd = fd + 1;
        proof {
            assert(self@.fds =~= old(self)@.fds.insert(fd, handle@));
        }
        fd
    }

    fn open_directory(&mut self, path: &str, fd_out: &mut u32) -> (errno: Errno)
        requires
            old(self).wf(),
            old(self)@.next_fd < u32::MAX,
        ensures
            final(self).wf(),
            opened(old(self)@, final(self)@, old(self)@.open_directory_outcome(path@), errno),
            fd_result(old(self)@, *old(fd_out), *final(fd_out), errno),
    {
        let parts_empty = split_path(path).len() == 0;
        let found = match self.filesystem.get_dir_entry(path) {
            Ok(dir) => dir,
            Err(_) => {
                return if parts_empty {
                    Errno::Inval
                } else {
                    Errno::Noent
                };
            },
        };
        *fd_out = self.install(FileHandle::Directory(found));
        Errno::Success
    }

    /// Opens a file or directory below the preopened root and hands out a
    /// new descriptor for it.
    pub fn path_open(
        &mut self,
        dirfd: Fd,
        _dirflags: u32,
        path: &str,
        oflags: u16,
        fs_rights_base: u64,
        _fs_rights_inheriting: u64,
        _fdflags: u16,
        fd_out: &mut Fd,
    ) -> (errno: Errno)
        requires
            old(self).wf(),
        ensures
            final(self).wf(),
            opened(
                old(self)@,
                final(self)@,
                old(self)@.open_outcome(dirfd, path@, oflags, fs_rights_base),
                errno,
            ),
            fd_result(old(self)@, *old(fd_out), *final(fd_out), errno),
    {
        if dirfd != PREOPEN_FD {
            return Errno::Badf;
        }
        if self.next_fd == u32::MAX {
            return Errno::Again;
        }
        if oflags & OFLAG_DIRECTORY != 0 {
            return self.open_directory(path, fd_out);
        }
        match self.filesystem.open_file(path) {
            Ok(file) => {
                let truncate = oflags & OFLAG_TRUNC != 0;
                if oflags & OFLAG_EXCL != 0 && oflags & OFLAG_CREAT != 0 {
                    return Errno::Exist;
                }
                if file.is_read_only(&self.filesystem) && (truncate || fs_rights_base
                    & RIGHT_FD_WRITE != 0) {
                    return Errno::Acces;
                }
                if truncate {
                    let _ = file.truncate(&mut self.filesystem);
                }
                proof {
                    assert(self@.fds =~= old(self)@.fds);
                }
                let normalized = normalize_path(path);
                let watched = should_track_path(normalized.as_str());
                *fd_out = self.install(FileHandle::File(file, watched));
                Errno::Success
            },
            Err(_) => {
                if oflags & OFLAG_CREAT != 0 {
                    match self.filesystem.create_and_open(path, Vec::new()) {
                        Ok(file) => {
                            proof {
                                assert(self@.fds =~= old(self)@.fds);
                            }
                            let normalized = normalize_path(path);
                            let watched = should_track_path(normalized.as_str());
                            *fd_out = self.install(FileHandle::File(file, watched));
                            Errno::Success
                        },
                        Err(_) => Errno::Io,
                    }
                } else {
                    self.open_directory(path, fd_out)
                }
            },
        }
    }
}

/// What kind of handle a descriptor has.
enum Peek {
    File,
    Directory(usize),
    Stdin,
    Stdout,
    Stderr,
    Closed,
}

impl WasiCtx {
    fn peek(&self, fd: u32) -> (p: Peek)
        ensures
            match self@.handle(fd) {
                Some(HandleView::File { .. }) => p is File,
                Some(HandleView::Directory { id }) => p == Peek::Directory(id),
                Some(HandleView::Stdin) => p is Stdin,
                Some(HandleView::Stdout) => p is Stdout,
                Some(HandleView::Stderr) => p is Stderr,
                None => p is Closed,
            },
    {
        match self.file_table.get(&fd) {
            Some(FileHandle::File(_, _)) => Peek::File,
            Some(FileHandle::Directory(dir)) => Peek::Directory(dir.id),
            Some(FileHandle::Stdin) => Peek::Stdin,
            Some(FileHandle::Stdout) => Peek::Stdout,
            Some(FileHandle::Stderr) => Peek::Stderr,
            None => Peek::Closed,
        }
    }

    /// Takes the file handle behind `fd` out of the table.
    fn take_file(&mut self, fd: u32) -> (r: (MemoryFile, Option<String>))
        requires
            old(self).wf(),
            old(self)@.handle(fd) matches Some(HandleView::File { .. }),
        ensures
            final(self).wf(),
            final(self)@ == (WasiView { fds: old(self)@.fds.remove(fd), ..old(self)@ }),
            FileHandle::File(r.0, r.1)@ == old(self)@.fds[fd],
    {
        let taken = self.file_table.remove(&fd);
        proof {
            assert(self@.fds =~= old(self)@.fds.remove(fd));
        }
        match taken {
            Some(FileHandle::File(file, watched)) => (file, watched),
            _ => (MemoryFile { id: 0, position: 0 }, None),
        }
    }

    /// Puts a file handle behind `fd`.
    fn put_file(&mut self, fd: u32, file: MemoryFile, watched: Option<String>)
        requires
            old(self).wf(),
            fd < old(self)@.next_fd,
        ensures
            final(self).wf(),
            final(self)@ == (WasiView {
                fds: old(self)@.fds.insert(fd, FileHandle::File(file, watched)@),
                ..old(self)@
            }),
    {
        self.file_table.insert(fd, FileHandle::File(file, watched));
        proof {
            assert(self@.fds =~= old(self)@.fds.insert(fd, FileHandle::File(file, watched)@));
        }
    }

    /// Reads at most `max` bytes from a descriptor.
    pub fn fd_read(&mut self, fd: Fd, max: usize) -> (r: (Errno, Vec<u8>))
        requires
            old(self).wf(),
        ensures
            final(self).wf(),
            (r.0, r.1@, final(self)@) == old(self)@.read_outcome(fd, max),
    {
        match self.peek(fd) {
            Peek::File => {
                let (mut file, watched) = self.take_file(fd);
                let outcome = file.read(&self.filesystem, max);
                self.put_file(fd, file, watched);
                proof {
                    assert(self@.fds =~= old(self)@.fds.insert(fd, FileHandle::File(file, watched)@));
                }
                match outcome {
                    Ok(data) => (Errno::Success, data),
                    Err(_) => {
                        proof {
                            assert(self@.fds =~= old(self)@.fds);
                        }
                        (Errno::Io, Vec::new())
                    },
                }
            },
            Peek::Stdin => (Errno::Success, Vec::new()),
            _ => (Errno::Badf, Vec::new()),
        }
    }

    /// Appends to a capture buffer what the bound leaves room for.
    fn capture(buffer: &mut Vec<u8>, truncated: &mut bool, data: &[u8])
        requires
            old(buffer)@.len() <= MAX_CAPTURE_BYTES,
        ensures
            final(buffer)@ == captured_after(old(buffer)@, data@),
            *final(truncated) == (*old(truncated) || capture_overflows(old(buffer)@, data@)),
            final(buffer)@.len() <= MAX_CAPTURE_BYTES,
    {
        let room: usize = MAX_CAPTURE_BYTES - buffer.len();
        if data.len() <= room {
            buffer.extend_from_slice(data);
        } else {
            buffer.extend_from_slice(vstd::slice::slice_subrange(data, 0, room));
            *truncated = true;
        }
    }

    /// Writes `data` to a descriptor and reports how many bytes the guest may
    /// count as written.
    pub fn fd_write(&mut self, fd: Fd, data: &[u8]) -> (r: (Errno, usize))
        requires
            old(self).wf(),
        ensures
            final(self).wf(),
            (r.0, r.1 as int, final(self)@) == old(self)@.write_outcome(fd, data@),
    {
        match self.peek(fd) {
            Peek::File => {
                let (mut file, watched) = self.take_file(fd);
                let outcome = file.write(&mut self.filesystem, data);
                proof {
                    assert(self@.fds =~= old(self)@.fds.remove(fd));
                }
                self.put_file(fd, file, watched);
                proof {
                    assert(self@.fds =~= old(self)@.fds.insert(fd, FileHandle::File(file, watched)@));
                }
                match outcome {
                    Ok(n) => (Errno::Success, n),
                    Err(_) => {
                        proof {
                            assert(self@.fds =~= old(self)@.fds);
                        }
                        (Errno::Io, 0)
                    },
                }
            },
            Peek::Stdout => {
                Self::capture(&mut self.stdout_capture, &mut self.stdout_truncated, data);
                (Errno::Success, data.len())
            },
            Peek::Stderr => {
                Self::capture(&mut self.stderr_capture, &mut self.stderr_truncated, data);
                (Errno::Success, data.len())
            },
            _ => (Errno::Badf, 0),
        }
    }

    /// Moves the cursor of a file descriptor and reports its new position.
    pub fn fd_seek(&mut self, fd: Fd, offset: i64, whence: u8) -> (r: (Errno, u64))
        requires
            old(self).wf(),
        ensures
            final(self).wf(),
            (r.0, r.1 as int, final(self)@) == old(self)@.seek_outcome(fd, offset, whence),
    {
        match self.peek(fd) {
            Peek::File => {},
            _ => {
                return (Errno::Badf, 0);
            },
        }
        if whence > 2 {
            return (Errno::Inval, 0);
        }
        let (mut file, watched) = self.take_file(fd);
        let outcome = if whence == 0 {
            if offset < 0 {
                let _ = file.len(&self.filesystem);
                if file.is_live(&self.filesystem) {
                    Err(FsError::InvalidInput)
                } else {
                    Err(FsError::NotFound)
                }
            } else {
                file.seek(&self.filesystem, SeekFrom::Start(offset as u64))
            }
        } else if whence == 1 {
            file.seek(&self.filesystem, SeekFrom::Current(offset))
        } else {
            file.seek(&self.filesystem, SeekFrom::End(offset))
        };
        self.put_file(fd, file, watched);
        proof {
            assert(self@.fds =~= old(self)@.fds.insert(fd, FileHandle::File(file, watched)@));
        }
        match outcome {
            Ok(position) => (Errno::Success, position),
            Err(_) => {
                proof {
                    assert(self@.fds =~= old(self)@.fds);
                }
                (Errno::Io, 0)
            },
        }
    }

    /// Reports the cursor of a file descriptor.
    pub fn fd_tell(&mut self, fd: Fd) -> (r: (Errno, u64))
        requires
            old(self).wf(),
        ensures
            final(self).wf(),
            (r.0, r.1 as int, final(self)@) == old(self)@.seek_outcome(fd, 0, 1),
    {
        self.fd_seek(fd, 0, 1)
    }

    /// Moves the cursor to `offset` and reads at most `max` bytes from there.
    /// Where the cursor cannot be moved, nothing is read.
    pub fn fd_pread(&mut self, fd: Fd, offset: i64, max: usize) -> (r: (Errno, Vec<u8>))
        requires
            old(self).wf(),
        ensures
            final(self).wf(),
            ({
                let sought = old(self)@.seek_outcome(fd, offset, 0);
                if sought.0 == Errno::Success {
                    (r.0, r.1@, final(self)@) == sought.2.read_outcome(fd, max)
                } else {
                    r.0 == sought.0 && r.1@.len() == 0 && final(self)@ == old(self)@
                }
            }),
    {
        let (errno, _) = self.fd_seek(fd, offset, 0);
        if errno.code() != 0 {
            return (errno, Vec::new());
        }
        self.fd_read(fd, max)
    }

    /// Moves the cursor to `offset` and writes `data` there. Where the cursor
    /// cannot be moved, nothing is written.
    pub fn fd_pwrite(&mut self, fd: Fd, offset: i64, data: &[u8]) -> (r: (Errno, usize))
        requires
            old(self).wf(),
        ensures
            final(self).wf(),
            ({
                let sought = old(self)@.seek_outcome(fd, offset, 0);
                if sought.0 == Errno::Success {
                    (r.0, r.1 as int, final(self)@) == sought.2.write_outcome(fd, data@)
                } else {
                    r.0 == sought.0 && r.1 == 0 && final(self)@ == old(self)@
                }
            }),
    {
        let (errno, _) = self.fd_seek(fd, offset, 0);
        if errno.code() != 0 {
            return (errno, 0);
        }
        self.fd_write(fd, data)
    }
}

/// The payload of a sub-content emission.
#[derive(Debug)]
pub enum SubcontentEmissionData {
    /// Bytes taken over from the guest's data file.
    Bytes(Bytes),
    /// A range of the content being processed.
    Slice { offset: usize, length: usize },
}

impl View for SubcontentEmissionData {
    type V = EmissionDataView;

    open spec fn view(&self) -> EmissionDataView {
        match *self {
            SubcontentEmissionData::Bytes(bytes) => EmissionDataView::Bytes(bytes_contents(bytes)),
            SubcontentEmissionData::Slice { offset, length } => EmissionDataView::Slice {
                offset,
                length,
            },
        }
    }
}

/// A sub-content emission: a display name and a payload.
#[derive(Debug)]
pub struct SubcontentEmission {
    pub filename: String,
    pub data: SubcontentEmissionData,
}

impl View for SubcontentEmission {
    type V = EmissionView;

    open spec fn view(&self) -> EmissionView {
        EmissionView { filename: self.filename@, data: self.data@ }
    }
}

/// What closing a descriptor published: the contents of a metadata file, or
/// a sub-content emission, or nothing.
#[derive(Debug)]
pub struct CloseResult {
    pub metadata_content: Option<Vec<u8>>,
    pub subcontent_emission: Option<SubcontentEmission>,
}

impl View for CloseResult {
    type V = CloseView;

    open spec fn view(&self) -> CloseView {
        CloseView {
            metadata_content: match self.metadata_content {
                Some(bytes) => Some(bytes@),
                None => None,
            },
            subcontent_emission: match self.subcontent_emission {
                Some(emission) => Some(emission@),
                None => None,
            },
        }
    }
}

/// The data file path that belongs to a descriptor path.
pub fn data_path(path: &str) -> (r: String)
    ensures
        r@ == data_path_for(path@),
{
    let from: usize = "/subcontent/metadata_".unicode_len();
    let suffix: usize = ".json".unicode_len();
    let len: usize = path.unicode_len();
    let mut out = String::from_str("/subcontent/data_");
    if suffix <= len && from <= len - suffix {
        out.append(path.substring_char(from, len - suffix));
    }
    out.append(".bin");
    proof {
        assert(out@ =~= data_path_for(path@));
    }
    out
}

impl WasiCtx {
    /// Handles the close of a sub-content descriptor file.
    fn process_subcontent_metadata(&mut self, metadata_path: &str) -> (r: Option<
        SubcontentEmission,
    >)
        requires
            old(self).wf(),
        ensures
            final(self).wf(),
            match descriptor_close_outcome(old(self)@.fs, metadata_path@).0 {
                Some(emission) => r matches Some(e) && e@ == emission,
                None => r is None,
            },
            final(self)@ == (WasiView {
                fs: descriptor_close_outcome(old(self)@.fs, metadata_path@).1,
                ..old(self)@
            }),
    {
        let content = self.filesystem.read_file(metadata_path);
        let _ = self.filesystem.remove_path(metadata_path);
        proof {
            assert(self@.fds =~= old(self)@.fds);
        }
        let descriptor = match content {
            Ok(bytes) => match parse_subcontent_descriptor(bytes.as_slice()) {
                Some(descriptor) => descriptor,
                None => {
                    return None;
                },
            },
            Err(_) => {
                return None;
            },
        };
        let SubcontentDescriptor { filename, offset, length } = descriptor;
        match (offset, length) {
            (Some(offset), Some(length)) => Some(
                SubcontentEmission {
                    filename,
                    data: SubcontentEmissionData::Slice { offset, length },
                },
            ),
            _ => {
                let payload_path = data_path(metadata_path);
                let taken = self.filesystem.take_file_bytes(payload_path.as_str());
                proof {
                    assert(self@.fds =~= old(self)@.fds);
                }
                match taken {
                    Ok(bytes) => Some(
                        SubcontentEmission { filename, data: SubcontentEmissionData::Bytes(bytes) },
                    ),
                    Err(_) => None,
                }
            },
        }
    }

    /// Closes a descriptor and hands out what the close published.
    pub fn fd_close(&mut self, fd: Fd) -> (r: (Errno, CloseResult))
        requires
            old(self).wf(),
        ensures
            final(self).wf(),
            (r.0, r.1@, final(self)@) == old(self)@.close_outcome(fd),
    {
        let nothing = CloseResult { metadata_content: None, subcontent_emission: None };
        if fd <= 2 {
            return (Errno::Success, nothing);
        }
        let handle = match self.file_table.remove(&fd) {
            Some(handle) => handle,
            None => {
                proof {
                    assert(self@.fds =~= old(self)@.fds);
                }
                return (Errno::Badf, nothing);
            },
        };
        proof {
            assert(self@.fds =~= old(self)@.fds.remove(fd));
        }
        let path = match handle {
            FileHandle::File(_, Some(path)) => path,
            _ => {
                return (Errno::Success, nothing);
            },
        };
        if str_starts_with(path.as_str(), "/metadata/") && str_ends_with(path.as_str(), ".json") {
            let content = match self.filesystem.read_file(path.as_str()) {
                Ok(bytes) => Some(bytes),
                Err(_) => None,
            };
            let _ = self.filesystem.remove_path(path.as_str());
            proof {
                assert(self@.fds =~= old(self)@.fds.remove(fd));
            }
            (Errno::Success, CloseResult { metadata_content: content, subcontent_emission: None })
        } else if str_starts_with(path.as_str(), "/subcontent/metadata_") && str_ends_with(
            path.as_str(),
            ".json",
        ) {
            let emission = self.process_subcontent_metadata(path.as_str());
            (Errno::Success, CloseResult { metadata_content: None, subcontent_emission: emission })
        } else {
            (Errno::Success, nothing)
        }
    }
}

/// WASI calls whose answer depends on nothing.
#[derive(Clone, Copy, Debug, PartialEq, Eq, Structural)]
pub enum FixedCall {
    PathSymlink,
    PathLink,
    PathReadlink,
    PathRename,
    PathUnlinkFile,
    PathRemoveDirectory,
    FdRenumber,
    SockAccept,
    SockRecv,
    SockSend,
    SockShutdown,
    FdAdvise,
    FdAllocate,
    FdDatasync,
    FdSync,
    FdFdstatSetFlags,
    FdFilestatSetSize,
    FdFilestatSetTimes,
    PathFilestatSetTimes,
    SchedYield,
    PollOneoff,
    ArgsGet,
}

impl FixedCall {
    /// The call is one the host does not offer: links, renames, removals,
    /// descriptor renumbering and sockets.
    pub open spec fn unsupported(self) -> bool {
        match self {
            FixedCall::PathSymlink
            | FixedCall::PathLink
            | FixedCall::PathReadlink
            | FixedCall::PathRename
            | FixedCall::PathUnlinkFile
            | FixedCall::PathRemoveDirectory
            | FixedCall::FdRenumber
            | FixedCall::SockAccept
            | FixedCall::SockRecv
            | FixedCall::SockSend
            | FixedCall::SockShutdown => true,
            _ => false,
        }
    }

    /// The error number the call answers with: `Nosys` where the host does
    /// not offer it, success for the calls that have nothing to do.
    pub fn errno(self) -> (e: Errno)
        ensures
            e == if self.unsupported() {
                Errno::Nosys
            } else {
                Errno::Success
            },
    {
        match self {
            FixedCall::PathSymlink
            | FixedCall::PathLink
            | FixedCall::PathReadlink
            | FixedCall::PathRename
            | FixedCall::PathUnlinkFile
            | FixedCall::PathRemoveDirectory
            | FixedCall::FdRenumber
            | FixedCall::SockAccept
            | FixedCall::SockRecv
            | FixedCall::SockSend
            | FixedCall::SockShutdown => Errno::Nosys,
            _ => Errno::Success,
        }
    }
}

/// `SystemTime::now` measured from the Unix epoch, in nanoseconds. Nothing
/// is promised of a clock reading.
#[verifier::external_body]
fn wall_clock_nanos() -> u64 {
    match std::time::SystemTime::now().duration_since(std::time::UNIX_EPOCH) {
        Ok(elapsed) => elapsed.as_nanos() as u64,
        Err(_) => 0,
    }
}

/// `rand::fill` on a fresh buffer: `len` bytes from the thread's random
/// number generator. Only the length is promised.
#[verifier::external_body]
fn random_bytes(len: usize) -> (bytes: Vec<u8>)
    ensures
        bytes@.len() == len,
{
    let mut bytes = vec![0u8; len];
    rand::fill(&mut bytes[..]);
    bytes
}

impl WasiCtx {
    /// Reports file type and size of a descriptor as a `filestat` record.
    pub fn fd_filestat_get(&self, fd: Fd) -> (r: (Errno, Vec<u8>))
        requires
            self.wf(),
        ensures
            (r.0, r.1@) == self@.filestat_outcome(fd),
    {
        match self.file_table.get(&fd) {
            None => (Errno::Badf, Vec::new()),
            Some(FileHandle::File(file, _)) => {
                let size: usize = file.len(&self.filesystem);
                (Errno::Success, encode_filestat(Filetype::RegularFile, size as u64))
            },
            Some(FileHandle::Directory(_)) => (
                Errno::Success,
                encode_filestat(Filetype::Directory, 0),
            ),
            Some(_) => (Errno::Success, encode_filestat(Filetype::CharacterDevice, 0)),
        }
    }

    /// Reports the file type of a descriptor as an `fdstat` record.
    pub fn fd_fdstat_get(&self, fd: Fd) -> (r: (Errno, Vec<u8>))
        requires
            self.wf(),
        ensures
            (r.0, r.1@) == self@.fdstat_outcome(fd),
    {
        match self.file_table.get(&fd) {
            None => (Errno::Badf, Vec::new()),
            Some(FileHandle::File(_, _)) => (Errno::Success, encode_fdstat(Filetype::RegularFile)),
            Some(FileHandle::Directory(_)) => (Errno::Success, encode_fdstat(Filetype::Directory)),
            Some(_) => (Errno::Success, encode_fdstat(Filetype::CharacterDevice)),
        }
    }

    /// Describes a preopened directory. Only descriptor 3 is one, and its
    /// name is one byte long.
    pub fn fd_prestat_get(&self, fd: Fd) -> (r: (Errno, Vec<u8>))
        ensures
            fd == PREOPEN_FD ==> r.0 == Errno::Success && r.1@ == prestat_layout(1),
            fd != PREOPEN_FD ==> r.0 == Errno::Badf && r.1@.len() == 0,
    {
        if fd != PREOPEN_FD {
            return (Errno::Badf, Vec::new());
        }
        (Errno::Success, encode_prestat(1))
    }

    /// The name of a preopened directory, for a buffer of `capacity` bytes.
    /// Only descriptor 3 is one; its name is `/`.
    pub fn fd_prestat_dir_name(&self, fd: Fd, capacity: usize) -> (r: (Errno, Vec<u8>))
        ensures
            r.0 == if fd != PREOPEN_FD {
                Errno::Badf
            } else if capacity == 0 {
                Errno::Inval
            } else {
                Errno::Success
            },
            r.1@ == if r.0 == Errno::Success {
                seq![47u8]
            } else {
                Seq::<u8>::empty()
            },
    {
        if fd != PREOPEN_FD {
            return (Errno::Badf, Vec::new());
        }
        if capacity == 0 {
            return (Errno::Inval, Vec::new());
        }
        let mut name: Vec<u8> = Vec::new();
        name.push(47);
        proof {
            assert(name@ =~= seq![47u8]);
        }
        (Errno::Success, name)
    }

    /// Reports file type and size of a path as a `filestat` record.
    pub fn path_filestat_get(&self, dirfd: Fd, _flags: u32, path: &str) -> (r: (Errno, Vec<u8>))
        requires
            self.wf(),
        ensures
            (r.0, r.1@) == self@.path_filestat_outcome(dirfd, path@),
    {
        if dirfd != PREOPEN_FD {
            return (Errno::Badf, Vec::new());
        }
        match self.filesystem.open_file(path) {
            Ok(file) => {
                let size: usize = file.len(&self.filesystem);
                (Errno::Success, encode_filestat(Filetype::RegularFile, size as u64))
            },
            Err(_) => match self.filesystem.get_dir(path) {
                Ok(_) => (Errno::Success, encode_filestat(Filetype::Directory, 0)),
                Err(_) => (Errno::Noent, Vec::new()),
            },
        }
    }

    /// Serialises directory entries into at most `room` bytes, starting at
    /// the entry that `cookie` names.
    #[verifier::loop_isolation(false)]
    pub fn fd_readdir(&self, fd: Fd, room: usize, cookie: u64) -> (r: (Errno, Vec<u8>))
        requires
            self.wf(),
        ensures
            (r.0, r.1@) == self@.readdir_outcome(fd, room, cookie),
    {
        let dir = match self.file_table.get(&fd) {
            None => {
                return (Errno::Badf, Vec::new());
            },
            Some(FileHandle::Directory(dir)) => *dir,
            Some(_) => {
                return (Errno::Notdir, Vec::new());
            },
        };
        let listing = dir.list(&self.filesystem);
        let mut out: Vec<u8> = Vec::new();
        if cookie >= listing.len() as u64 {
            return (Errno::Success, out);
        }
        let ghost entries = self@.fs.dirs[dir.id as int];
        let ghost wanted = readdir_layout(entries, cookie as int, room as int);
        let mut i: usize = cookie as usize;
        while i < listing.len()
            invariant
                i <= listing@.len(),
                out@.len() <= room,
                wanted == out@ + readdir_layout(entries, i as int, room - out@.len()),
            decreases listing@.len() - i,
        {
            let name = listing[i].0.as_str().as_bytes();
            let filetype = if listing[i].1 {
                Filetype::Directory
            } else {
                Filetype::RegularFile
            };
            proof {
                assert(name@ == encode_utf8(entries[i as int].name));
            }
            if name.len() > u32::MAX as usize || name.len() > usize::MAX - DIRENT_HEAD_SIZE
                || DIRENT_HEAD_SIZE + name.len() > room - out.len() {
                proof {
                    assert(readdir_layout(entries, i as int, room - out@.len()) =~= Seq::<
                        u8,
                    >::empty());
                    assert(wanted =~= out@);
                }
                return (Errno::Success, out);
            }
            let ghost before = out@;
            push_dirent(&mut out, (i + 1) as u64, (i + 1) as u64, name, filetype);
            proof {
                let entry = dirent_layout((i + 1) as u64, (i + 1) as u64, name@, filetype);
                assert(readdir_layout(entries, i as int, room - before.len()) == entry
                    + readdir_layout(entries, i as int + 1, room - before.len() - entry.len()));
                assert(wanted =~= out@ + readdir_layout(entries, i as int + 1, room - out@.len()));
            }
            i += 1;
        }
        proof {
            assert(wanted =~= out@);
        }
        (Errno::Success, out)
    }

    /// Creates a directory below the preopened root, with every missing
    /// directory on the way.
    pub fn path_create_directory(&mut self, dirfd: Fd, path: &str) -> (errno: Errno)
        requires
            old(self).wf(),
        ensures
            final(self).wf(),
            dirfd != PREOPEN_FD ==> errno == Errno::Badf && final(self)@ == old(self)@,
            dirfd == PREOPEN_FD ==> ({
                let made = old(self)@.fs.with_dirs_made(0, path_components(path@));
                &&& final(self)@ == (WasiView { fs: made.0, ..old(self)@ })
                &&& errno == if made.1 is Ok {
                    Errno::Success
                } else {
                    Errno::Io
                }
            }),
    {
        if dirfd != PREOPEN_FD {
            return Errno::Badf;
        }
        let made = self.filesystem.create_dir_all(path);
        proof {
            assert(self@.fds =~= old(self)@.fds);
        }
        match made {
            Ok(()) => Errno::Success,
            Err(_) => Errno::Io,
        }
    }

    /// The environment laid out for the guest: where each variable starts,
    /// and the block of all variables. Nothing where 32-bit counters cannot
    /// describe it.
    #[verifier::loop_isolation(false)]
    fn environ(&self) -> (r: Option<(Vec<u32>, Vec<u8>)>)
        ensures
            match r {
                Some((offsets, block)) => {
                    &&& self@.environ_fits()
                    &&& block@ == environ_block(self@.env, self@.env.len() as int)
                    &&& offsets@.len() == self@.env.len()
                    &&& forall|i: int|
                        0 <= i < offsets@.len() ==> #[trigger] offsets@[i] == environ_block(
                            self@.env,
                            i,
                        ).len()
                },
                None => !self@.environ_fits(),
            },
    {
        let mut offsets: Vec<u32> = Vec::new();
        let mut block: Vec<u8> = Vec::new();
        if self.env_vars.len() > u32::MAX as usize {
            return None;
        }
        let ghost env = self@.env;
        let mut i: usize = 0;
        while i < self.env_vars.len()
            invariant
                i <= self.env_vars@.len(),
                env == self@.env,
                env.len() == self.env_vars@.len(),
                block@ == environ_block(env, i as int),
                block@.len() <= u32::MAX,
                offsets@.len() == i,
                forall|j: int|
                    0 <= j < i ==> #[trigger] offsets@[j] == environ_block(env, j).len(),
            decreases self.env_vars@.len() - i,
        {
            let key = self.env_vars[i].0.as_str().as_bytes();
            let value = self.env_vars[i].1.as_str().as_bytes();
            proof {
                assert(env[i as int] == (self.env_vars@[i as int].0@, self.env_vars@[i as int].1@));
                assert(environ_block(env, i as int + 1) == environ_block(env, i as int)
                    + environ_entry(env[i as int].0, env[i as int].1));
                lemma_environ_block_grows(env, i as int + 1, env.len() as int);
            }
            let room: usize = u32::MAX as usize - block.len();
            if key.len() > room || value.len() > room - key.len() || room - key.len() - value.len()
                < 2 {
                return None;
            }
            offsets.push(block.len() as u32);
            block.extend_from_slice(key);
            block.push(61);
            block.extend_from_slice(value);
            block.push(0);
            proof {
                assert(block@ =~= environ_block(env, i as int + 1));
            }
            i += 1;
        }
        Some((offsets, block))
    }

    /// Reports how many variables the environment has and how many bytes
    /// they take.
    pub fn environ_sizes_get(&self) -> (r: (Errno, u32, u32))
        ensures
            self@.environ_fits() ==> r.0 == Errno::Success && r.1 == self@.env.len() && r.2
                == environ_block(self@.env, self@.env.len() as int).len(),
            !self@.environ_fits() ==> r == (Errno::TooBig, 0u32, 0u32),
    {
        match self.environ() {
            Some((offsets, block)) => (Errno::Success, offsets.len() as u32, block.len() as u32),
            None => (Errno::TooBig, 0, 0),
        }
    }

    /// Hands out the environment: for each variable the offset at which it
    /// starts, and the block of all variables.
    pub fn environ_get(&self) -> (r: (Errno, Vec<u32>, Vec<u8>))
        ensures
            self@.environ_fits() ==> {
                &&& r.0 == Errno::Success
                &&& r.2@ == environ_block(self@.env, self@.env.len() as int)
                &&& r.1@.len() == self@.env.len()
                &&& forall|i: int|
                    0 <= i < r.1@.len() ==> #[trigger] r.1@[i] == environ_block(self@.env, i).len()
            },
            !self@.environ_fits() ==> r.0 == Errno::TooBig && r.1@.len() == 0 && r.2@.len() == 0,
    {
        match self.environ() {
            Some((offsets, block)) => (Errno::Success, offsets, block),
            None => (Errno::TooBig, Vec::new(), Vec::new()),
        }
    }

    /// Guests get no command-line arguments: none, taking no bytes.
    pub fn args_sizes_get(&self) -> (r: (Errno, u32, u32))
        ensures
            r == (Errno::Success, 0u32, 0u32),
    {
        (Errno::Success, 0, 0)
    }

    /// The wall-clock time in nanoseconds since the Unix epoch.
    pub fn clock_time_get(&self) -> (r: (Errno, u64))
        ensures
            r.0 == Errno::Success,
    {
        Self::clock_answer(wall_clock_nanos())
    }

    /// The answer to `clock_time_get` for a given reading of the clock:
    /// success, with the reading as it is.
    pub fn clock_answer(now: u64) -> (r: (Errno, u64))
        ensures
            r == (Errno::Success, now),
    {
        (Errno::Success, now)
    }

    /// The clock's resolution: one nanosecond.
    pub fn clock_res_get(&self) -> (r: (Errno, u64))
        ensures
            r == (Errno::Success, 1u64),
    {
        (Errno::Success, 1)
    }

    /// `len` random bytes.
    pub fn random_get(&self, len: usize) -> (r: (Errno, Vec<u8>))
        ensures
            r.0 == Errno::Success,
            r.1@.len() == len,
    {
        (Errno::Success, random_bytes(len))
    }

    /// Nothing is ever ready: zero events.
    pub fn poll_oneoff(&self) -> (r: (Errno, u32))
        ensures
            r == (Errno::Success, 0u32),
    {
        (Errno::Success, 0)
    }

    /// Replaces the environment that guests see.
    pub fn set_env_vars(&mut self, env_vars: Vec<(String, String)>)
        requires
            old(self).wf(),
        ensures
            final(self).wf(),
            final(self)@ == (WasiView { env: env_view(env_vars@), ..old(self)@ }),
    {
        self.env_vars = env_vars;
        proof {
            assert(self@.fds =~= old(self)@.fds);
        }
    }

    /// Forgets everything captured from the standard streams.
    pub fn clear_capture(&mut self)
        requires
            old(self).wf(),
        ensures
            final(self).wf(),
            final(self)@ == (WasiView {
                stdout: Seq::empty(),
                stderr: Seq::empty(),
                stdout_truncated: false,
                stderr_truncated: false,
                ..old(self)@
            }),
    {
        self.stdout_capture = Vec::new();
        self.stderr_capture = Vec::new();
        self.stdout_truncated = false;
        self.stderr_truncated = false;
        proof {
            assert(self@.fds =~= old(self)@.fds);
        }
    }

    /// What was captured from standard output, and whether bytes were
    /// dropped.
    pub fn take_stdout(&self) -> (r: (Vec<u8>, bool))
        ensures
            r.0@ == self@.stdout,
            r.1 == self@.stdout_truncated,
    {
        (self.stdout_capture.clone(), self.stdout_truncated)
    }

    /// What was captured from standard error, and whether bytes were dropped.
    pub fn take_stderr(&self) -> (r: (Vec<u8>, bool))
        ensures
            r.0@ == self@.stderr,
            r.1 == self@.stderr_truncated,
    {
        (self.stderr_capture.clone(), self.stderr_truncated)
    }
}

impl WasiCtx {
    /// Collects and removes the metadata files that the guest left unclosed.
    #[verifier::loop_isolation(false)]
    pub fn sweep_metadata(&mut self) -> (collected: Vec<Vec<u8>>)
        requires
            old(self).wf(),
        ensures
            final(self).wf(),
            buffers_view(collected@) == old(self)@.metadata_sweep().0,
            final(self)@ == (WasiView { fs: old(self)@.metadata_sweep().1, ..old(self)@ }),
    {
        let mut collected: Vec<Vec<u8>> = Vec::new();
        let dir = match self.filesystem.get_dir("/metadata") {
            Ok(dir) => dir,
            Err(_) => {
                proof {
                    assert(buffers_view(collected@) =~= Seq::<Seq<u8>>::empty());
                }
                return collected;
            },
        };
        let listing = dir.list(&self.filesystem);
        let ghost entries = old(self)@.fs.dirs[dir.id as int];
        let ghost wanted = sweep_outcome(old(self)@.fs, entries, 0);
        let mut i: usize = 0;
        proof {
            assert(buffers_view(collected@) =~= Seq::<Seq<u8>>::empty());
        }
        while i < listing.len()
            invariant
                i <= listing@.len(),
                listing@.len() == entries.len(),
                self.wf(),
                self@ == (WasiView { fs: self@.fs, ..old(self)@ }),
                wanted.0 == buffers_view(collected@) + sweep_outcome(self@.fs, entries, i as int).0,
                wanted.1 == sweep_outcome(self@.fs, entries, i as int).1,
            decreases listing@.len() - i,
        {
            let ghost fs_before = self@.fs;
            let ghost collected_before = buffers_view(collected@);
            proof {
                assert(listing@[i as int].0@ == entries[i as int].name);
                assert(listing@[i as int].1 == (entries[i as int].entry is Directory));
            }
            if !listing[i].1 && str_ends_with(listing[i].0.as_str(), ".json") {
                let mut path = String::from_str("/metadata/");
                path.append(listing[i].0.as_str());
                match self.filesystem.read_file(path.as_str()) {
                    Ok(bytes) => {
                        collected.push(bytes);
                        proof {
                            assert(buffers_view(collected@) =~= collected_before + seq![
                                fs_before.contents_at(path@)->Ok_0,
                            ]);
                        }
                    },
                    Err(_) => {},
                }
                let _ = self.filesystem.remove_path(path.as_str());
                proof {
                    assert(self@.fds =~= old(self)@.fds);
                    let rest = sweep_outcome(self@.fs, entries, i as int + 1);
                    assert(wanted.0 =~= buffers_view(collected@) + rest.0);
                }
            }
            i += 1;
        }
        proof {
            assert(wanted.0 =~= buffers_view(collected@));
        }
        collected
    }

    /// Makes `/data.bin` a read-only file over `data`.
    pub fn set_data_bin(&mut self, data: Bytes)
        requires
            old(self).wf(),
        ensures
            final(self).wf(),
            final(self)@ == (WasiView {
                fs: old(self)@.fs.with_data_bin(bytes_contents(data)),
                ..old(self)@
            }),
    {
        let _ = self.filesystem.set_data_bin(data);
        proof {
            assert(self@.fds =~= old(self)@.fds);
        }
    }
}

} // verus!

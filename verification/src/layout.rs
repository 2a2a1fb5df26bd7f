//! Byte layouts of the WASI preview-1 ABI: the records the host writes into
//! guest memory, and the scatter/gather vectors it reads from there.

use crate::shared_buffer::zeros;
use crate::wasi::Filetype;
use vstd::bytes::{
    spec_u32_from_le_bytes, spec_u32_to_le_bytes, spec_u64_to_le_bytes, u32_from_le_bytes,
    u32_to_le_bytes, u64_to_le_bytes,
};
use vstd::prelude::*;
use vstd::slice::slice_subrange;

verus! {

/// Size of a `filestat` record.
pub const FILESTAT_SIZE: usize = 64;

/// Size of an `fdstat` record.
pub const FDSTAT_SIZE: usize = 24;

/// Size of a `prestat` record.
pub const PRESTAT_SIZE: usize = 8;

/// Size of the fixed head of a directory entry.
pub const DIRENT_HEAD_SIZE: usize = 24;

/// Size of one scatter/gather vector.
pub const IOVEC_SIZE: usize = 8;

/// Appends `n` zero bytes.
pub fn push_zeros(out: &mut Vec<u8>, n: usize)
    ensures
        final(out)@ == old(out)@ + zeros(n as nat),
{
    let mut i: usize = 0;
    while i < n
        invariant
            i <= n,
            out@ == old(out)@ + zeros(i as nat),
        decreases n - i,
    {
        out.push(0);
        i += 1;
        proof {
            assert(out@ =~= old(out)@ + zeros(i as nat));
        }
    }
}

/// A `filestat` record: the file type at byte 16, the size as a
/// little-endian 64-bit number at byte 32, zero elsewhere.
pub open spec fn filestat_layout(filetype: Filetype, size: u64) -> Seq<u8> {
    zeros(16) + seq![filetype.spec_code()] + zeros(15) + spec_u64_to_le_bytes(size) + zeros(24)
}

/// Builds a `filestat` record.
pub fn encode_filestat(filetype: Filetype, size: u64) -> (out: Vec<u8>)
    ensures
        out@ == filestat_layout(filetype, size),
        out@.len() == FILESTAT_SIZE,
{
    let mut out: Vec<u8> = Vec::new();
    push_zeros(&mut out, 16);
    out.push(filetype.code());
    push_zeros(&mut out, 15);
    let mut size_bytes = u64_to_le_bytes(size);
    out.append(&mut size_bytes);
    push_zeros(&mut out, 24);
    proof {
        assert(out@ =~= filestat_layout(filetype, size));
    }
    out
}

/// An `fdstat` record: the file type at byte 0, no flags, and every right
/// granted, both base (byte 8) and inheriting (byte 16).
pub open spec fn fdstat_layout(filetype: Filetype) -> Seq<u8> {
    seq![filetype.spec_code()] + zeros(7) + spec_u64_to_le_bytes(u64::MAX) + spec_u64_to_le_bytes(
        u64::MAX,
    )
}

/// Builds an `fdstat` record.
pub fn encode_fdstat(filetype: Filetype) -> (out: Vec<u8>)
    ensures
        out@ == fdstat_layout(filetype),
        out@.len() == FDSTAT_SIZE,
{
    let mut out: Vec<u8> = Vec::new();
    out.push(filetype.code());
    push_zeros(&mut out, 7);
    let mut base = u64_to_le_bytes(u64::MAX);
    out.append(&mut base);
    let mut inheriting = u64_to_le_bytes(u64::MAX);
    out.append(&mut inheriting);
    proof {
        assert(out@ =~= fdstat_layout(filetype));
    }
    out
}

/// A `prestat` record for a preopened directory: tag zero, then the length
/// of the directory's name as a little-endian 32-bit number at byte 4.
pub open spec fn prestat_layout(name_len: u32) -> Seq<u8> {
    zeros(4) + spec_u32_to_le_bytes(name_len)
}

/// Builds a `prestat` record.
pub fn encode_prestat(name_len: u32) -> (out: Vec<u8>)
    ensures
        out@ == prestat_layout(name_len),
        out@.len() == PRESTAT_SIZE,
{
    let mut out: Vec<u8> = Vec::new();
    push_zeros(&mut out, 4);
    let mut len_bytes = u32_to_le_bytes(name_len);
    out.append(&mut len_bytes);
    proof {
        assert(out@ =~= prestat_layout(name_len));
    }
    out
}

/// A directory entry: the cookie of the next entry, the inode, the length
/// of the name, the file type, three bytes of padding, then the name.
pub open spec fn dirent_layout(next: u64, inode: u64, name: Seq<u8>, filetype: Filetype) -> Seq<
    u8,
> {
    spec_u64_to_le_bytes(next) + spec_u64_to_le_bytes(inode) + spec_u32_to_le_bytes(
        name.len() as u32,
    ) + seq![filetype.spec_code()] + zeros(3) + name
}

/// Appends a directory entry.
pub fn push_dirent(out: &mut Vec<u8>, next: u64, inode: u64, name: &[u8], filetype: Filetype)
    requires
        name@.len() <= u32::MAX,
    ensures
        final(out)@ == old(out)@ + dirent_layout(next, inode, name@, filetype),
        dirent_layout(next, inode, name@, filetype).len() == DIRENT_HEAD_SIZE + name@.len(),
{
    let mut next_bytes = u64_to_le_bytes(next);
    out.append(&mut next_bytes);
    let mut inode_bytes = u64_to_le_bytes(inode);
    out.append(&mut inode_bytes);
    let mut len_bytes = u32_to_le_bytes(name.len() as u32);
    out.append(&mut len_bytes);
    out.push(filetype.code());
    push_zeros(out, 3);
    out.extend_from_slice(name);
    proof {
        assert(out@ =~= old(out)@ + dirent_layout(next, inode, name@, filetype));
    }
}

/// One scatter/gather vector: a guest address and a length.
#[derive(Clone, Copy, Debug, PartialEq, Eq, Structural)]
pub struct IoVec {
    pub ptr: u32,
    pub len: u32,
}

/// The vector written at position `i` of an array of vectors.
pub open spec fn iovec_at(bytes: Seq<u8>, i: int) -> IoVec {
    IoVec {
        ptr: spec_u32_from_le_bytes(bytes.subrange(8 * i, 8 * i + 4)),
        len: spec_u32_from_le_bytes(bytes.subrange(8 * i + 4, 8 * i + 8)),
    }
}

/// Reads an array of scatter/gather vectors. Bytes beyond the last whole
/// vector are ignored.
pub fn parse_iovecs(bytes: &[u8]) -> (iovs: Vec<IoVec>)
    ensures
        iovs@.len() == bytes@.len() / 8,
        forall|i: int| 0 <= i < iovs@.len() ==> #[trigger] iovs@[i] == iovec_at(bytes@, i),
{
    let mut iovs: Vec<IoVec> = Vec::new();
    let mut base: usize = 0;
    while bytes.len() - base >= 8
        invariant
            base <= bytes@.len(),
            base == 8 * iovs@.len(),
            forall|j: int| 0 <= j < iovs@.len() ==> #[trigger] iovs@[j] == iovec_at(bytes@, j),
        decreases bytes@.len() - base,
    {
        let ptr = u32_from_le_bytes(slice_subrange(bytes, base, base + 4));
        let len = u32_from_le_bytes(slice_subrange(bytes, base + 4, base + 8));
        iovs.push(IoVec { ptr, len });
        base += 8;
    }
    iovs
}

/// The sum of the lengths of the first `n` vectors.
pub open spec fn iovecs_total(iovs: Seq<IoVec>, n: int) -> int
    decreases n,
{
    if n <= 0 {
        0
    } else {
        iovecs_total(iovs, n - 1) + iovs[n - 1].len
    }
}

/// The number of bytes that the vectors have room for, or the largest
/// machine word where the sum is beyond it.
pub fn total_len(iovs: &Vec<IoVec>) -> (total: usize)
    ensures
        total == if iovecs_total(iovs@, iovs@.len() as int) <= usize::MAX {
            iovecs_total(iovs@, iovs@.len() as int)
        } else {
            usize::MAX as int
        },
{
    let mut total: usize = 0;
    let mut i: usize = 0;
    while i < iovs.len()
        invariant
            i <= iovs@.len(),
            total == if iovecs_total(iovs@, i as int) <= usize::MAX {
                iovecs_total(iovs@, i as int)
            } else {
                usize::MAX as int
            },
        decreases iovs@.len() - i,
    {
        let len: usize = iovs[i].len as usize;
        proof {
            assert(iovecs_total(iovs@, i as int + 1) == iovecs_total(iovs@, i as int) + iovs@[i as int].len);
            lemma_iovecs_total_nonneg(iovs@, i as int);
        }
        total = if len > usize::MAX - total {
            usize::MAX
        } else {
            total + len
        };
        i += 1;
    }
    total
}

proof fn lemma_iovecs_total_nonneg(iovs: Seq<IoVec>, n: int)
    ensures
        iovecs_total(iovs, n) >= 0,
    decreases n,
{
    if n > 0 {
        lemma_iovecs_total_nonneg(iovs, n - 1);
    }
}

/// Where a piece of data goes: a guest address, and the range of the data
/// that goes there.
#[derive(Clone, Copy, Debug, PartialEq, Eq, Structural)]
pub struct Scatter {
    pub ptr: u32,
    pub start: usize,
    pub end: usize,
}

/// How many of `available` bytes the vectors before position `n` take up.
pub open spec fn scattered_before(iovs: Seq<IoVec>, n: int, available: int) -> int {
    if iovecs_total(iovs, n) < available {
        iovecs_total(iovs, n)
    } else {
        available
    }
}

/// Distributes `available` bytes over the vectors in order: each vector is
/// filled before the next one gets anything. Vectors that get nothing are
/// left out.
pub fn scatter(iovs: &Vec<IoVec>, available: usize) -> (plan: Vec<Scatter>)
    ensures
        forall|k: int|
            0 <= k < plan@.len() ==> (#[trigger] plan@[k]).start < plan@[k].end <= available,
        forall|k: int|
            0 <= k < plan@.len() ==> exists|i: int|
                0 <= i < iovs@.len() && (#[trigger] plan@[k]).ptr == iovs@[i].ptr && plan@[k].start
                    == scattered_before(iovs@, i, available as int) && plan@[k].end
                    == scattered_before(iovs@, i + 1, available as int),
        plan@.len() == 0 ==> scattered_before(iovs@, iovs@.len() as int, available as int) == 0,
        plan@.len() > 0 ==> plan@[0].start == 0 && plan@.last().end == scattered_before(
            iovs@,
            iovs@.len() as int,
            available as int,
        ),
        forall|k: int| 0 < k < plan@.len() ==> (#[trigger] plan@[k]).start == plan@[k - 1].end,
{
    let mut plan: Vec<Scatter> = Vec::new();
    let mut done: usize = 0;
    let mut i: usize = 0;
    while i < iovs.len()
        invariant
            i <= iovs@.len(),
            done <= available,
            done == scattered_before(iovs@, i as int, available as int),
            forall|k: int|
                0 <= k < plan@.len() ==> (#[trigger] plan@[k]).start < plan@[k].end <= available,
            forall|k: int|
                0 <= k < plan@.len() ==> exists|j: int|
                    0 <= j < i && (#[trigger] plan@[k]).ptr == iovs@[j].ptr && plan@[k].start
                        == scattered_before(iovs@, j, available as int) && plan@[k].end
                        == scattered_before(iovs@, j + 1, available as int),
            plan@.len() == 0 ==> done == 0,
            plan@.len() > 0 ==> plan@[0].start == 0 && plan@.last().end == done,
            forall|k: int| 0 < k < plan@.len() ==> (#[trigger] plan@[k]).start == plan@[k - 1].end,
        decreases iovs@.len() - i,
    {
        proof {
            assert(iovecs_total(iovs@, i as int + 1) == iovecs_total(iovs@, i as int) + iovs@[i as int].len);
            lemma_iovecs_total_nonneg(iovs@, i as int);
        }
        let room: usize = iovs[i].len as usize;
        let left: usize = available - done;
        let count: usize = if room < left {
            room
        } else {
            left
        };
        if count > 0 {
            plan.push(Scatter { ptr: iovs[i].ptr, start: done, end: done + count });
            proof {
                let k = plan@.len() - 1;
                assert(plan@[k].ptr == iovs@[i as int].ptr);
            }
        }
        done = done + count;
        i += 1;
    }
    plan
}


/// Every address `base + offsets[i]` fits a 32-bit pointer.
pub open spec fn pointers_fit(base: u32, offsets: Seq<u32>) -> bool {
    forall|i: int| 0 <= i < offsets.len() ==> base + #[trigger] offsets[i] <= u32::MAX
}

/// The first `n` of the addresses `base + offsets[i]`, each as a
/// little-endian 32-bit pointer.
pub open spec fn pointers_layout(base: u32, offsets: Seq<u32>, n: int) -> Seq<u8>
    decreases n,
{
    if n <= 0 {
        Seq::empty()
    } else {
        pointers_layout(base, offsets, n - 1) + spec_u32_to_le_bytes(
            (base + offsets[n - 1]) as u32,
        )
    }
}

/// Builds the table of pointers to the pieces of a block that the guest
/// placed at `base`. Nothing where a pointer would lie beyond 32 bits.
pub fn encode_pointers(base: u32, offsets: &Vec<u32>) -> (r: Option<Vec<u8>>)
    ensures
        match r {
            Some(table) => pointers_fit(base, offsets@) && table@ == pointers_layout(
                base,
                offsets@,
                offsets@.len() as int,
            ),
            None => !pointers_fit(base, offsets@),
        },
{
    let mut table: Vec<u8> = Vec::new();
    let mut i: usize = 0;
    while i < offsets.len()
        invariant
            i <= offsets@.len(),
            table@ == pointers_layout(base, offsets@, i as int),
            forall|j: int| 0 <= j < i ==> base + #[trigger] offsets@[j] <= u32::MAX,
        decreases offsets@.len() - i,
    {
        if offsets[i] > u32::MAX - base {
            return None;
        }
        let mut pointer = u32_to_le_bytes(base + offsets[i]);
        table.append(&mut pointer);
        i += 1;
    }
    Some(table)
}

} // verus!

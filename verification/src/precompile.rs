//! The precompile cache: where a module's cache file lives, how the file is
//! framed, and when a cache file may stand in for compiling the module.

use crate::text::{find_last, last_index_of, lemma_last_index_of_range, str_equal};
use vstd::bytes::{
    lemma_auto_spec_u64_to_from_le_bytes, spec_u64_from_le_bytes, spec_u64_to_le_bytes,
    u64_from_le_bytes, u64_to_le_bytes,
};
use vstd::prelude::*;
use vstd::slice::slice_subrange;
use vstd::string::{StrSliceExecFns, StringExecFns};

verus! {

/// Size of the header of a cache file.
pub const CACHE_HEADER_SIZE: usize = 16;

/// Where the file name starts in a slash-delimited path.
pub open spec fn file_name_start(path: Seq<char>) -> int {
    last_index_of(path, '/') + 1
}

/// The file name of a path: what follows its last slash.
pub open spec fn file_name_of(path: Seq<char>) -> Seq<char> {
    path.skip(file_name_start(path))
}

/// The stem of a file name: the name up to its last dot, or the whole name
/// where it has no dot or only a leading one.
pub open spec fn stem_of(name: Seq<char>) -> Seq<char> {
    if last_index_of(name, '.') > 0 {
        name.take(last_index_of(name, '.'))
    } else {
        name
    }
}

/// The extension of a file name: what follows its last dot, where that dot
/// is not the name's first character.
pub open spec fn extension_of(name: Seq<char>) -> Option<Seq<char>> {
    if last_index_of(name, '.') > 0 {
        Some(name.skip(last_index_of(name, '.') + 1))
    } else {
        None
    }
}

/// The stem under which a path's module and cache file go: the stem of its
/// file name, or `unknown` where that is empty.
pub open spec fn stem_or_unknown(path: Seq<char>) -> Seq<char> {
    if stem_of(file_name_of(path)).len() == 0 {
        "unknown"@
    } else {
        stem_of(file_name_of(path))
    }
}

/// The cache file of a module: `<stem>_precompiled`, next to the module.
pub open spec fn cache_path_of(path: Seq<char>) -> Seq<char> {
    path.take(file_name_start(path)) + stem_or_unknown(path) + "_precompiled"@
}

/// The file name of a path, and where it starts, counted in characters.
fn file_name(path: &str) -> (r: (&str, usize))
    ensures
        r.0@ == file_name_of(path@),
        r.1 == file_name_start(path@),
        r.1 <= path@.len(),
{
    let len: usize = path.unicode_len();
    proof {
        lemma_last_index_of_range(path@, '/');
    }
    let start: usize = match find_last(path, '/') {
        Some(i) => i + 1,
        None => 0,
    };
    (path.substring_char(start, len), start)
}

/// Where the last dot of a file name stands, where the name has a dot
/// beyond its first character.
fn inner_dot(name: &str) -> (r: Option<usize>)
    ensures
        match r {
            Some(i) => i == last_index_of(name@, '.') && 0 < i < name@.len(),
            None => last_index_of(name@, '.') <= 0,
        },
{
    proof {
        lemma_last_index_of_range(name@, '.');
    }
    match find_last(name, '.') {
        Some(i) => if i > 0 {
            Some(i)
        } else {
            None
        },
        None => None,
    }
}

/// The stem under which a path's module and cache file go.
pub fn file_stem(path: &str) -> (stem: String)
    ensures
        stem@ == stem_or_unknown(path@),
{
    let (name, _) = file_name(path);
    let stem = match inner_dot(name) {
        Some(i) => name.substring_char(0, i),
        None => name,
    };
    if stem.unicode_len() == 0 {
        String::from_str("unknown")
    } else {
        String::from_str(stem)
    }
}

/// The path of the cache file that belongs to the module at `wasm_path`.
pub fn get_cache_path(wasm_path: &str) -> (cache_path: String)
    ensures
        cache_path@ == cache_path_of(wasm_path@),
{
    let (_, start) = file_name(wasm_path);
    let stem = file_stem(wasm_path);
    let mut out = String::from_str(wasm_path.substring_char(0, start));
    out.append(stem.as_str());
    out.append("_precompiled");
    out
}

/// The name of the module in a file, where the file is one: a file whose
/// extension is `wasm` holds the module named by its stem.
pub open spec fn module_name_of(path: Seq<char>) -> Option<Seq<char>> {
    if extension_of(file_name_of(path)) == Some("wasm"@) {
        Some(stem_or_unknown(path))
    } else {
        None
    }
}

/// The name of the module in a file, where the file is one.
pub fn module_name(path: &str) -> (r: Option<String>)
    ensures
        match module_name_of(path@) {
            Some(name) => r matches Some(n) && n@ == name,
            None => r is None,
        },
{
    let (name, _) = file_name(path);
    match inner_dot(name) {
        Some(i) => {
            let len: usize = name.unicode_len();
            let extension = name.substring_char(i + 1, len);
            if str_equal(extension, "wasm") {
                Some(file_stem(path))
            } else {
                None
            }
        },
        None => None,
    }
}

/// The header of a cache file.
#[derive(Clone, Copy, Debug, PartialEq, Eq, Structural)]
pub struct CacheHeader {
    pub engine_hash: u64,
    pub mtime: u64,
}

/// The header that a cache file starts with: the engine hash and the
/// source's modification time, each a little-endian 64-bit number. A file
/// shorter than a header has none.
pub open spec fn header_of(cache: Seq<u8>) -> Option<CacheHeader> {
    if cache.len() >= CACHE_HEADER_SIZE {
        Some(
            CacheHeader {
                engine_hash: spec_u64_from_le_bytes(cache.subrange(0, 8)),
                mtime: spec_u64_from_le_bytes(cache.subrange(8, 16)),
            },
        )
    } else {
        None
    }
}

/// A cache file: header, then the serialized module.
pub open spec fn cache_file(engine_hash: u64, mtime: u64, artifact: Seq<u8>) -> Seq<u8> {
    spec_u64_to_le_bytes(engine_hash) + spec_u64_to_le_bytes(mtime) + artifact
}

/// The serialized module that a cache file offers for the given engine and
/// source: what follows the header, where the header matches both and
/// something follows it.
pub open spec fn usable_artifact(cache: Seq<u8>, engine_hash: u64, mtime: u64) -> Option<Seq<u8>> {
    if header_of(cache) == Some(CacheHeader { engine_hash, mtime }) && cache.len()
        > CACHE_HEADER_SIZE {
        Some(cache.skip(CACHE_HEADER_SIZE as int))
    } else {
        None
    }
}

/// Reads the header of a cache file.
pub fn read_cache_header(cache: &[u8]) -> (r: Option<CacheHeader>)
    ensures
        r == header_of(cache@),
{
    if cache.len() < CACHE_HEADER_SIZE {
        return None;
    }
    let engine_hash = u64_from_le_bytes(slice_subrange(cache, 0, 8));
    let mtime = u64_from_le_bytes(slice_subrange(cache, 8, 16));
    Some(CacheHeader { engine_hash, mtime })
}

/// Whether a cache file was written by this engine for this version of the
/// source.
pub fn is_cache_valid(cache: &[u8], current_engine_hash: u64, current_mtime: u64) -> (valid: bool)
    ensures
        valid == (header_of(cache@) == Some(
            CacheHeader { engine_hash: current_engine_hash, mtime: current_mtime },
        )),
{
    match read_cache_header(cache) {
        Some(header) => header.engine_hash == current_engine_hash && header.mtime
            == current_mtime,
        None => false,
    }
}

/// The serialized module to try before compiling, where the cache file
/// offers one.
pub fn cached_artifact<'a>(cache: &'a [u8], engine_hash: u64, mtime: u64) -> (r: Option<&'a [u8]>)
    ensures
        match usable_artifact(cache@, engine_hash, mtime) {
            Some(artifact) => r matches Some(found) && found@ == artifact,
            None => r is None,
        },
{
    if is_cache_valid(cache, engine_hash, mtime) && cache.len() > CACHE_HEADER_SIZE {
        Some(slice_subrange(cache, CACHE_HEADER_SIZE, cache.len()))
    } else {
        None
    }
}

/// Frames a serialized module as a cache file.
pub fn write_precompiled_cache(engine_hash: u64, mtime: u64, serialized_module: &[u8]) -> (file:
    Vec<u8>)
    ensures
        file@ == cache_file(engine_hash, mtime, serialized_module@),
{
    let mut file = u64_to_le_bytes(engine_hash);
    let mut mtime_bytes = u64_to_le_bytes(mtime);
    file.append(&mut mtime_bytes);
    file.extend_from_slice(serialized_module);
    file
}

/// A cache file written for an engine and a source is valid for them, and
/// offers back exactly the module that was written, where that is not
/// empty. It is valid for no other engine hash and no other modification
/// time.
pub proof fn lemma_cache_round_trip(
    engine_hash: u64,
    mtime: u64,
    artifact: Seq<u8>,
    other_hash: u64,
    other_mtime: u64,
)
    ensures
        header_of(cache_file(engine_hash, mtime, artifact)) == Some(
            CacheHeader { engine_hash, mtime },
        ),
        artifact.len() > 0 ==> usable_artifact(
            cache_file(engine_hash, mtime, artifact),
            engine_hash,
            mtime,
        ) == Some(artifact),
        (other_hash != engine_hash || other_mtime != mtime) ==> usable_artifact(
            cache_file(engine_hash, mtime, artifact),
            other_hash,
            other_mtime,
        ) is None,
{
    lemma_auto_spec_u64_to_from_le_bytes();
    let file = cache_file(engine_hash, mtime, artifact);
    assert(file.subrange(0, 8) =~= spec_u64_to_le_bytes(engine_hash));
    assert(file.subrange(8, 16) =~= spec_u64_to_le_bytes(mtime));
    assert(file.skip(16) =~= artifact);
}

} // verus!

//! Layout of the on-disk model cache:
//! `<root>/<org>/<name>/<revision>/` with a `.complete` marker written
//! last, an advisory `.lock`, and an optional `.capabilities.json`.
use vstd::prelude::*;

use crate::asr::IoKind;
use crate::hf::error::HfError;
use crate::paths::{
    extension_of, file_name_bounds, join, join_path, last_dot, partial_path_of, piece_start, name_end,
};
use crate::text::{chars_of, contains, contains_str, eq_chars, occurs_at, owned};

verus! {

/// One entry of [`crate::hf::cache`] listings.
#[derive(Debug, Clone, PartialEq, Eq)]
#[non_exhaustive]
pub struct CachedModel {
    /// Path of the model directory.
    pub path: String,
    /// Total bytes across the regular files of the directory.
    pub bytes_total: u64,
    /// Number of regular files at the top level.
    pub file_count: usize,
    /// Whether the `.complete` marker is present.
    pub complete_marker_present: bool,
}

impl CachedModel {
    /// Build a [`CachedModel`] from its four fields.
    pub fn new(path: String, bytes_total: u64, file_count: usize, complete_marker_present: bool) -> (m: Self)
        ensures
            m.path == path,
            m.bytes_total == bytes_total,
            m.file_count == file_count,
            m.complete_marker_present == complete_marker_present,
    {
        CachedModel { path, bytes_total, file_count, complete_marker_present }
    }
}

/// The cache root: the override when set, else
/// `<cache dir or .cache>/voxora/models/huggingface`.
pub open spec fn cache_root_of(override_dir: Option<Seq<char>>, cache_dir: Option<Seq<char>>) -> Seq<char> {
    match override_dir {
        Some(o) => o,
        None => {
            let base = match cache_dir { Some(c) => c, None => ".cache"@ };
            join(join(join(base, "voxora"@), "models"@), "huggingface"@)
        },
    }
}

/// Resolve the cache root from the `VOXORA_CACHE_DIR` override and the
/// platform cache directory (both read by the caller).
pub fn cache_root_from(override_dir: Option<String>, cache_dir: Option<String>) -> (r: String)
    ensures
        r@ == cache_root_of(crate::asr::opt_text(override_dir), crate::asr::opt_text(cache_dir)),
{
    match override_dir {
        Some(o) => o,
        None => {
            let base = match cache_dir {
                Some(c) => c,
                None => owned(".cache"),
            };
            let a = join_path(base.as_str(), "voxora");
            let b = join_path(a.as_str(), "models");
            join_path(b.as_str(), "huggingface")
        },
    }
}

/// Directory of `(model_id, revision)` inside `cache_root`.
pub fn model_dir(cache_root: &str, model_id: &str, revision: &str) -> (r: String)
    ensures
        r@ == join(join(cache_root@, model_id@), revision@),
{
    let a = join_path(cache_root, model_id);
    join_path(a.as_str(), revision)
}

/// Path of the `.complete` marker of `dir`.
pub fn marker_path(dir: &str) -> (r: String)
    ensures
        r@ == join(dir@, ".complete"@),
{
    join_path(dir, ".complete")
}

/// Path of the advisory lockfile of `dir`.
pub fn lock_path(dir: &str) -> (r: String)
    ensures
        r@ == join(dir@, ".lock"@),
{
    join_path(dir, ".lock")
}

/// Path of the capabilities cache file of `dir`.
pub fn capabilities_cache_path(dir: &str) -> (r: String)
    ensures
        r@ == join(dir@, ".capabilities.json"@),
{
    join_path(dir, ".capabilities.json")
}

/// A directory entry left behind by an interrupted download: its name
/// contains `.partial` (both `<file>.partial` and the streaming temp
/// files `<file>.<ext>.partial.<unique>`).
pub open spec fn is_partial_name(name: Seq<char>) -> bool {
    contains(name, ".partial"@)
}

/// Whether a directory entry named `name` is debris of an interrupted
/// download, to be swept once the model directory is complete.
pub fn is_partial(name: &str) -> (r: bool)
    ensures
        r == is_partial_name(name@),
{
    let v = chars_of(name);
    contains_str(&v, ".partial")
}

/// `piece_start` never passes its end.
proof fn lemma_piece_start_le(p: Seq<char>, n: int)
    ensures
        0 <= piece_start(p, n) <= if n < 0 { 0 } else { n },
    decreases n,
{
    if n > 0 && n <= p.len() && p[n - 1] != '/' {
        lemma_piece_start_le(p, n - 1);
    }
}

/// With no `/` in `p[m..n]`, the piece that ends at `n` starts at or
/// before `m`.
proof fn lemma_piece_start_before(p: Seq<char>, m: int, n: int)
    requires
        0 <= m <= n <= p.len(),
        forall|i: int| m <= i < n ==> p[i] != '/',
    ensures
        piece_start(p, n) <= m,
    decreases n - m,
{
    if n == m {
        lemma_piece_start_le(p, n);
    } else {
        lemma_piece_start_before(p, m, n - 1);
    }
}

/// Every temp file that a download streams into is swept as debris:
/// the file name of [`partial_path_of`]`(dest, unique)` is a partial
/// name, for a `dest` that has a file name and a `unique` suffix that
/// holds no `/`.
pub proof fn lemma_partial_path_is_swept(dest: Seq<char>, unique: Seq<char>)
    requires
        file_name_bounds(dest) is Some,
        forall|i: int| 0 <= i < unique.len() ==> unique[i] != '/',
    ensures
        file_name_bounds(partial_path_of(dest, unique)) matches Some((s, e))
            && is_partial_name(partial_path_of(dest, unique).subrange(s, e)),
{
    reveal_strlit(".partial.");
    reveal_strlit(".partial");
    reveal_strlit(".");
    reveal_strlit("..");
    let x = match extension_of(dest) {
        Some(x) => x,
        None => "bin"@,
    };
    let (s0, e0) = file_name_bounds(dest)->0;
    let d = last_dot(dest, s0, e0);
    let stem_end = if d > s0 { d } else { e0 };
    let pre = dest.take(stem_end) + "."@ + x;
    let tail = ".partial."@ + unique;
    let r = partial_path_of(dest, unique);
    assert(r =~= pre + tail);
    let k = pre.len() as int;
    let n = r.len() as int;
    assert(tail.len() == 9 + unique.len());
    assert forall|i: int| k <= i < n implies r[i] != '/' by {
        assert(r[i] == tail[i - k]);
        if i - k >= 9 {
            assert(tail[i - k] == unique[i - k - 9]);
        }
    }
    // The path does not end in `/` or `/.`, so the name runs to its end.
    assert(r[n - 1] != '/');
    assert(n >= 2 && r[n - 2] != '/');
    assert(name_end(r, n) == n);
    lemma_piece_start_before(r, k, n);
    let s = piece_start(r, n);
    lemma_piece_start_le(r, n);
    let name = r.subrange(s, n);
    assert(s <= k);
    assert(name.subrange(k - s, k - s + 8) =~= ".partial"@) by {
        assert forall|j: int| 0 <= j < 8 implies name.subrange(k - s, k - s + 8)[j] == ".partial"@[j] by {
            assert(name[k - s + j] == r[k + j]);
            assert(r[k + j] == tail[j]);
        }
    }
    assert(occurs_at(name, ".partial"@, k - s));
    assert(name.len() >= 9);
    assert(name != "."@ && name != ".."@);
}

/// What to do for a model directory: `Ok(true)` to create it,
/// `Ok(false)` to reuse it, an I/O error when a non-directory is in
/// the way.
pub fn plan_ensure_dir(dir: &str, exists: bool, is_dir: bool) -> (r: Result<bool, HfError>)
    ensures
        !exists ==> r == Ok::<bool, HfError>(true),
        exists && is_dir ==> r == Ok::<bool, HfError>(false),
        exists && !is_dir ==> (r matches Err(HfError::Io { path, message, kind }) && path@ == dir@
            && message@ == "exists but is not a directory"@ && kind == IoKind::AlreadyExists),
{
    if exists {
        if !is_dir {
            return Err(HfError::Io {
                path: owned(dir),
                message: owned("exists but is not a directory"),
                kind: IoKind::AlreadyExists,
            });
        }
        return Ok(false);
    }
    Ok(true)
}

/// What listing a directory reported about one entry.
#[derive(Debug, Clone, PartialEq, Eq)]
pub struct EntryFacts {
    /// File name of the entry.
    pub name: String,
    /// `Some(true)` for a regular file, `Some(false)` for anything
    /// else, `None` when the file type could not be read.
    pub is_file: Option<bool>,
    /// Size in bytes, when the metadata could be read.
    pub len: Option<u64>,
}

/// Number of regular files among `e`.
pub open spec fn file_count_of(e: Seq<EntryFacts>) -> nat
    decreases e.len(),
{
    if e.len() == 0 {
        0
    } else {
        file_count_of(e.drop_last()) + if e.last().is_file == Some(true) { 1nat } else { 0nat }
    }
}

/// Bytes of the regular files among `e`, saturating at `u64::MAX`.
pub open spec fn bytes_of(e: Seq<EntryFacts>) -> nat
    decreases e.len(),
{
    if e.len() == 0 {
        0
    } else {
        let prev = bytes_of(e.drop_last());
        let add = match (e.last().is_file, e.last().len) {
            (Some(true), Some(l)) => l as nat,
            _ => 0nat,
        };
        if prev + add > u64::MAX {
            u64::MAX as nat
        } else {
            prev + add
        }
    }
}

/// Whether a regular file named `.complete` is among `e`.
pub open spec fn marker_in(e: Seq<EntryFacts>) -> bool {
    exists|i: int| 0 <= i < e.len() && e[i].is_file == Some(true) && (#[trigger] e[i]).name@ == ".complete"@
}

/// Summarise one leaf directory of the cache; `None` when it holds no
/// regular file.
pub fn describe(dir: &str, entries: &Vec<EntryFacts>) -> (r: Option<CachedModel>)
    ensures
        file_count_of(entries@) == 0 ==> r is None,
        file_count_of(entries@) > 0 ==> (r matches Some(m) && m.path@ == dir@ && m.file_count
            == file_count_of(entries@) && m.bytes_total == bytes_of(entries@)
            && m.complete_marker_present == marker_in(entries@)),
{
    let marker = chars_of(".complete");
    let mut bytes_total: u64 = 0;
    let mut file_count: usize = 0;
    let mut complete_marker_present = false;
    let mut i: usize = 0;
    while i < entries.len()
        invariant
            i <= entries.len(),
            marker@ == ".complete"@,
            file_count == file_count_of(entries@.take(i as int)),
            file_count <= i,
            bytes_total == bytes_of(entries@.take(i as int)),
            complete_marker_present == marker_in(entries@.take(i as int)),
        decreases entries.len() - i,
    {
        let ghost p = entries@.take(i + 1);
        assert(p.drop_last() =~= entries@.take(i as int));
        assert(p.last() == entries@[i as int]);
        let e = &entries[i];
        if e.is_file == Some(true) {
            let n = chars_of(e.name.as_str());
            if eq_chars(&n, &marker) {
                complete_marker_present = true;
                assert(p[i as int] == e);
            }
            if let Some(l) = e.len {
                bytes_total = bytes_total.saturating_add(l);
            }
            file_count = file_count + 1;
        }
        proof {
            if marker_in(p) && !marker_in(entries@.take(i as int)) {
                let k = choose|k: int| 0 <= k < p.len() && p[k].is_file == Some(true) && (#[trigger] p[k]).name@ == ".complete"@;
                if k < i {
                    assert(entries@.take(i as int)[k] == p[k]);
                }
            }
            if marker_in(entries@.take(i as int)) {
                let k = choose|k: int| 0 <= k < i && entries@.take(i as int)[k].is_file == Some(true) && (#[trigger] entries@.take(i as int)[k]).name@ == ".complete"@;
                assert(p[k] == entries@.take(i as int)[k]);
            }
        }
        i = i + 1;
    }
    assert(entries@.take(entries.len() as int) =~= entries@);
    if file_count == 0 {
        return None;
    }
    Some(CachedModel { path: owned(dir), bytes_total, file_count, complete_marker_present })
}

} // verus!

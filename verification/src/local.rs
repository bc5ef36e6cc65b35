//! Model sources on the local disk: [`LocalSource`] resolves ids against
//! a root directory under a security contract, and the decisions of a
//! chain that falls back from one source to another on a miss.
use vstd::prelude::*;
use vstd::string::StringSliceAdditionalSpecFns;

use crate::asr::{asr_message, AsrError, ModelCapabilities, ModelDescriptor, ModelDir, ModelSourceKind, Quantization, ResolveOptions};
use crate::paths::{components, is_absolute, join, join_path, path_components, path_starts_with, views, components_lead};
use crate::text::{
    cat, chars_of, contains, debug_quote, debug_quoted, decimal, decimal_string, eq_str, lemma_contains_quoted, owned,
    plain_ascii,
};

verus! {

/// Intrinsic cap on the byte length of a model id.
pub const MAX_MODEL_ID_LEN: usize = 4096;

/// A model source that resolves ids against a directory on disk. It has
/// no `Debug`: a rendering would show the configured root.
#[derive(Clone)]
pub struct LocalSource {
    root: String,
}

/// What `lstat` reports of a resolved entry.
#[derive(Debug, Clone, Copy, PartialEq, Eq)]
pub struct EntryMeta {
    /// The entry is a symbolic link.
    pub is_symlink: bool,
    /// The entry is a regular file.
    pub is_file: bool,
    /// Its length in bytes.
    pub len: u64,
}

/// The id cap in force: the caller's, else the intrinsic one.
pub open spec fn id_cap(opts: ResolveOptions) -> nat {
    match opts.max_id_length {
        Some(n) => n as nat,
        None => MAX_MODEL_ID_LEN as nat,
    }
}

/// The byte length of `s`, as `str::len` reports it.
pub open spec fn byte_len(s: &str) -> nat {
    (s.spec_bytes().len() as usize) as nat
}

/// The error or the entry path that the checks before any disk access
/// give for `model_id` under `root`: the byte length cap, then no `.`
/// or `..` component in the joined path, then containment of an
/// absolute entry in an absolute root.
pub open spec fn request_check(root: Seq<char>, model_id: &str, opts: ResolveOptions) -> Result<Seq<char>, Seq<char>> {
    let entry = join(root, model_id@);
    let comps = components(entry);
    if byte_len(model_id) > id_cap(opts) {
        Err("model id too long (max "@ + decimal(id_cap(opts)) + " bytes): "@ + decimal(byte_len(model_id))
            + " bytes"@)
    } else if comps.contains("."@) {
        Err("path traversal: . segment in id "@ + debug_quoted(model_id@))
    } else if comps.contains(".."@) {
        Err("path traversal: .. segment in id "@ + debug_quoted(model_id@))
    } else if is_absolute(entry) && is_absolute(root) && !path_starts_with(entry, root) {
        Err("absolute path outside the configured root: id "@ + debug_quoted(model_id@))
    } else {
        Ok(entry)
    }
}

/// The message of a missing entry; it names the entry, not the root.
pub open spec fn not_found_message(entry: Seq<char>) -> Seq<char> {
    "local model not found at "@ + entry
}

/// What an accepted request promises: the entry is the root joined
/// with the id, the id is within the cap, no component of the entry is
/// `.` or `..`, and an absolute entry under an absolute root lies inside
/// that root.
pub proof fn lemma_accepted_entry_stays_inside(root: Seq<char>, model_id: &str, opts: ResolveOptions)
    requires
        request_check(root, model_id, opts) is Ok,
    ensures
        ({
            let entry = join(root, model_id@);
            &&& request_check(root, model_id, opts) == Ok::<Seq<char>, Seq<char>>(entry)
            &&& byte_len(model_id) <= id_cap(opts)
            &&& !components(entry).contains(".."@)
            &&& !components(entry).contains("."@)
            &&& (is_absolute(entry) && is_absolute(root) ==> path_starts_with(entry, root))
        }),
{
}

impl LocalSource {
    /// The configured root, verbatim.
    pub closed spec fn root_spec(&self) -> Seq<char> {
        self.root@
    }

    /// A source over `root`, stored verbatim.
    pub fn new(root: &str) -> (s: Self)
        ensures
            s.root_spec() == root@,
    {
        LocalSource { root: owned(root) }
    }

    /// The configured root.
    pub fn root(&self) -> (r: &str)
        ensures
            r@ == self.root_spec(),
    {
        self.root.as_str()
    }

    /// The source's name.
    pub fn name(&self) -> (r: &'static str)
        ensures
            r@ == "local"@,
    {
        "local"
    }

    /// A directory listing says nothing of engines: always unknown.
    pub fn capabilities_for(&self, model_id: &str) -> (r: Result<ModelCapabilities, AsrError>)
        ensures
            r matches Ok(c) && c.is_unknown(),
    {
        Ok(ModelCapabilities::unknown())
    }

    /// A directory cannot be enumerated as a catalogue.
    pub fn list_available(&self) -> (r: Result<Vec<ModelDescriptor>, AsrError>)
        ensures
            r matches Err(AsrError::Unsupported(m)) && m@ == "list_available"@,
    {
        Err(AsrError::Unsupported("list_available"))
    }

    /// The checks of a resolve before the disk is touched (see
    /// [`request_check`]): `Ok` holds the entry path, `root` joined
    /// with `model_id`.
    pub fn check_request(&self, model_id: &str, opts: &ResolveOptions) -> (r: Result<String, AsrError>)
        ensures
            match request_check(self.root_spec(), model_id, *opts) {
                Ok(entry) => r matches Ok(e) && e@ == entry,
                Err(msg) => r matches Err(AsrError::InvalidInput(m)) && m@ == msg,
            },
            r is Err && byte_len(model_id) <= id_cap(*opts) && plain_ascii(model_id@) ==> (r matches Err(
                AsrError::InvalidInput(m),
            ) && contains(m@, model_id@)),
    {
        proof {
            reveal_strlit(".");
            reveal_strlit("..");
        }
        let cap: usize = match opts.max_id_length {
            Some(n) => n,
            None => MAX_MODEL_ID_LEN,
        };
        let len = model_id.len();
        assert(len as u64 == len && cap as u64 == cap);
        if len > cap {
            let m = cat(
                cat(cat(cat("model id too long (max ", decimal_string(cap as u64).as_str()).as_str(), " bytes): ").as_str(),
                    decimal_string(len as u64).as_str()).as_str(),
                " bytes",
            );
            proof {
                assert(m@ =~= "model id too long (max "@ + decimal(id_cap(*opts)) + " bytes): "@ + decimal(
                    byte_len(model_id),
                ) + " bytes"@);
            }
            return Err(AsrError::InvalidInput(m));
        }
        let entry = join_path(self.root.as_str(), model_id);
        let comps = path_components(entry.as_str());
        let ghost cs = views(comps@);
        let mut has_cur = false;
        let mut has_parent = false;
        let mut i: usize = 0;
        while i < comps.len()
            invariant
                i <= comps.len(),
                cs == views(comps@),
                has_cur <==> cs.take(i as int).contains("."@),
                has_parent <==> cs.take(i as int).contains(".."@),
            decreases comps.len() - i,
        {
            proof {
                reveal_strlit(".");
                reveal_strlit("..");
                assert(cs.take(i + 1) =~= cs.take(i as int).push(cs[i as int]));
            }
            let c = &comps[i];
            if c.len() == 1 && c[0] == '.' {
                proof {
                    assert(cs[i as int] =~= "."@);
                    assert(cs.take(i + 1)[i as int] == "."@);
                }
                has_cur = true;
            } else {
                proof {
                    if cs.take(i + 1).contains("."@) {
                        let k = choose|k: int| 0 <= k < i + 1 && #[trigger] cs.take(i + 1)[k] == "."@;
                        if k == i {
                            assert(cs[i as int].len() == 1 && cs[i as int][0] == '.');
                        } else {
                            assert(cs.take(i as int)[k] == "."@);
                        }
                    }
                }
            }
            if c.len() == 2 && c[0] == '.' && c[1] == '.' {
                proof {
                    assert(cs[i as int] =~= ".."@);
                    assert(cs.take(i + 1)[i as int] == ".."@);
                }
                has_parent = true;
            } else {
                proof {
                    if cs.take(i + 1).contains(".."@) {
                        let k = choose|k: int| 0 <= k < i + 1 && #[trigger] cs.take(i + 1)[k] == ".."@;
                        if k == i {
                            assert(cs[i as int].len() == 2 && cs[i as int][0] == '.' && cs[i as int][1] == '.');
                        } else {
                            assert(cs.take(i as int)[k] == ".."@);
                        }
                    }
                }
            }
            proof {
                if cs.take(i as int).contains("."@) {
                    let k = choose|k: int| 0 <= k < i && #[trigger] cs.take(i as int)[k] == "."@;
                    assert(cs.take(i + 1)[k] == "."@);
                }
                if cs.take(i as int).contains(".."@) {
                    let k = choose|k: int| 0 <= k < i && #[trigger] cs.take(i as int)[k] == ".."@;
                    assert(cs.take(i + 1)[k] == ".."@);
                }
            }
            i = i + 1;
        }
        proof {
            assert(cs.take(comps.len() as int) =~= cs);
        }
        if has_cur {
            let q = debug_quote(model_id);
            let m = cat("path traversal: . segment in id ", q.as_str());
            proof {
                if plain_ascii(model_id@) {
                    lemma_contains_quoted("path traversal: . segment in id "@, model_id@);
                    assert(m@ =~= "path traversal: . segment in id "@ + "\""@ + model_id@ + "\""@);
                }
            }
            return Err(AsrError::InvalidInput(m));
        }
        if has_parent {
            let q = debug_quote(model_id);
            let m = cat("path traversal: .. segment in id ", q.as_str());
            proof {
                if plain_ascii(model_id@) {
                    lemma_contains_quoted("path traversal: .. segment in id "@, model_id@);
                    assert(m@ =~= "path traversal: .. segment in id "@ + "\""@ + model_id@ + "\""@);
                }
            }
            return Err(AsrError::InvalidInput(m));
        }
        let e = chars_of(entry.as_str());
        let rt = chars_of(self.root.as_str());
        let entry_abs = e.len() > 0 && e[0] == '/';
        let root_abs = rt.len() > 0 && rt[0] == '/';
        if entry_abs && root_abs {
            let root_comps = path_components(self.root.as_str());
            if !components_lead(&root_comps, &comps) {
                let q = debug_quote(model_id);
            let m = cat("absolute path outside the configured root: id ", q.as_str());
            proof {
                if plain_ascii(model_id@) {
                    lemma_contains_quoted("absolute path outside the configured root: id "@, model_id@);
                    assert(m@ =~= "absolute path outside the configured root: id "@ + "\""@ + model_id@ + "\""@);
                }
            }
                return Err(AsrError::InvalidInput(m));
            }
        }
        Ok(entry)
    }

    /// The decision once the entry has been examined without following
    /// links: `None` when it does not exist. A missing entry or one that
    /// is no regular file is `ModelNotFound`; a link, or a file longer
    /// than `opts.max_bytes`, is `InvalidInput`; else the resolved
    /// directory: the root, the entry, `Local`, `F16`.
    pub fn admit_entry(&self, model_id: &str, entry: &str, meta: Option<EntryMeta>, opts: &ResolveOptions) -> (r: Result<ModelDir, AsrError>)
        ensures
            match meta {
                None => r matches Err(AsrError::ModelNotFound(m)) && m@ == not_found_message(entry@),
                Some(md) => if md.is_symlink {
                    r matches Err(AsrError::InvalidInput(m))
                        && m@ == "refusing to follow symlink at id "@ + debug_quoted(model_id@)
                } else if !md.is_file {
                    r matches Err(AsrError::ModelNotFound(m)) && m@ == not_found_message(entry@)
                } else if opts.max_bytes matches Some(max) && md.len > max {
                    r matches Err(AsrError::InvalidInput(m)) && m@ == "file too large ("@ + decimal(
                        md.len as nat,
                    ) + " bytes > max_bytes "@ + decimal(opts.max_bytes->0 as nat) + ")"@
                } else {
                    r matches Ok(d) && d.path@ == self.root_spec() && d.entry is Some
                        && d.entry->0@ == entry@ && d.kind == ModelSourceKind::Local
                        && d.quantization == Quantization::F16
                },
            },
    {
        match meta {
            None => Err(AsrError::ModelNotFound(cat("local model not found at ", entry))),
            Some(md) => {
                if md.is_symlink {
                    return Err(AsrError::InvalidInput(
                        cat("refusing to follow symlink at id ", debug_quote(model_id).as_str()),
                    ));
                }
                if !md.is_file {
                    return Err(AsrError::ModelNotFound(cat("local model not found at ", entry)));
                }
                if let Some(max) = opts.max_bytes {
                    if md.len > max {
                        let m = cat(
                            cat(cat(cat("file too large (", decimal_string(md.len).as_str()).as_str(), " bytes > max_bytes ").as_str(),
                                decimal_string(max).as_str()).as_str(),
                            ")",
                        );
                        return Err(AsrError::InvalidInput(m));
                    }
                }
                Ok(ModelDir::with_entry(owned(self.root.as_str()), owned(entry), ModelSourceKind::Local, Quantization::F16))
            },
        }
    }
}

/// What a chain does once its primary source has answered.
#[derive(Debug, PartialEq, Eq)]
pub enum ChainStep {
    /// The answer stands.
    Done(Result<ModelDir, AsrError>),
    /// The primary missed with this message: ask the fallback.
    TryFallback(String),
}

/// A chain consults the fallback only when the primary reports
/// `ModelNotFound`; every other answer of the primary stands as it is.
pub fn after_primary(answer: Result<ModelDir, AsrError>) -> (s: ChainStep)
    ensures
        match answer {
            Err(AsrError::ModelNotFound(msg)) => s == ChainStep::TryFallback(msg),
            other => s == ChainStep::Done(other),
        },
{
    match answer {
        Err(AsrError::ModelNotFound(msg)) => ChainStep::TryFallback(msg),
        other => ChainStep::Done(other),
    }
}

/// The answer of a chain after its fallback answered, the primary having
/// missed with `primary_miss`. A fallback miss is reported as a miss
/// that names both, the fallback's error by its text
/// ([`AsrError::message`]); any other fallback answer stands.
pub fn after_fallback(primary_miss: &str, answer: Result<ModelDir, AsrError>) -> (r: Result<ModelDir, AsrError>)
    ensures
        match answer {
            Err(AsrError::ModelNotFound(f)) => r matches Err(AsrError::ModelNotFound(m))
                && m@ == "primary miss: "@ + primary_miss@ + "; fallback miss: "@ + asr_message(
                    AsrError::ModelNotFound(f),
                ),
            other => r == other,
        },
{
    match answer {
        Err(e) => {
            if let AsrError::ModelNotFound(_) = &e {
                let rendered = e.message();
                let m = cat(
                    cat(cat("primary miss: ", primary_miss).as_str(), "; fallback miss: ").as_str(),
                    rendered.as_str(),
                );
                Err(AsrError::ModelNotFound(m))
            } else {
                Err(e)
            }
        },
        other => other,
    }
}

} // verus!

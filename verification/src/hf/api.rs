//! Validation of Hub request parameters and the request paths built
//! from them.
use vstd::prelude::*;

use crate::hf::error::HfError;
use crate::text::{
    cat, cat3, chars_of, contains, contains_str, debug_quote, debug_quoted, ends_with,
    ends_with_chars, owned, starts_with, starts_with_chars, string_of,
};

verus! {

/// The message `validate_model_id` rejects `id` with, if any.
pub open spec fn model_id_problem(id: Seq<char>) -> Option<Seq<char>> {
    if id.len() == 0 {
        Some("empty model_id"@)
    } else if !contains(id, "/"@) {
        Some("model_id "@ + debug_quoted(id) + " must be in 'org/name' form"@)
    } else if starts_with(id, "/"@) || ends_with(id, "/"@) {
        Some("model_id "@ + debug_quoted(id) + " has leading or trailing slash"@)
    } else if contains(id, ".."@) {
        Some("model_id "@ + debug_quoted(id) + " contains '..'"@)
    } else {
        None
    }
}

/// The message `validate_revision` rejects `rev` with, if any.
pub open spec fn revision_problem(rev: Seq<char>) -> Option<Seq<char>> {
    if rev.len() == 0 {
        Some("empty revision"@)
    } else if starts_with(rev, "/"@) || contains(rev, ".."@) {
        Some("revision "@ + debug_quoted(rev) + " has invalid characters"@)
    } else {
        None
    }
}

/// The message a repo file name is rejected with, if any.
pub open spec fn filename_problem(name: Seq<char>) -> Option<Seq<char>> {
    if name.len() == 0 || contains(name, ".."@) {
        Some("bad filename: "@ + debug_quoted(name))
    } else {
        None
    }
}

/// `r` is `Ok(())` when there is no problem, else `InvalidInput` with
/// the problem's message.
pub open spec fn checked<T>(problem: Option<Seq<char>>, r: Result<T, HfError>) -> bool {
    match problem {
        None => r is Ok,
        Some(m) => r matches Err(HfError::InvalidInput(msg)) && msg@ == m,
    }
}

/// Reject a model id that is not a plain `org/name`.
pub fn validate_model_id(model_id: &str) -> (r: Result<(), HfError>)
    ensures
        checked(model_id_problem(model_id@), r),
{
    let v = chars_of(model_id);
    let slash = chars_of("/");
    if v.len() == 0 {
        return Err(HfError::InvalidInput(owned("empty model_id")));
    }
    if !contains_str(&v, "/") {
        let q = debug_quote(model_id);
        return Err(HfError::InvalidInput(cat3("model_id ", q.as_str(), " must be in 'org/name' form")));
    }
    if starts_with_chars(&v, &slash) || ends_with_chars(&v, &slash) {
        let q = debug_quote(model_id);
        return Err(
            HfError::InvalidInput(cat3("model_id ", q.as_str(), " has leading or trailing slash")),
        );
    }
    if contains_str(&v, "..") {
        let q = debug_quote(model_id);
        return Err(HfError::InvalidInput(cat3("model_id ", q.as_str(), " contains '..'")));
    }
    Ok(())
}

/// Reject an empty revision, one starting with `/`, or one holding `..`.
pub fn validate_revision(revision: &str) -> (r: Result<(), HfError>)
    ensures
        checked(revision_problem(revision@), r),
{
    let v = chars_of(revision);
    let slash = chars_of("/");
    if v.len() == 0 {
        return Err(HfError::InvalidInput(owned("empty revision")));
    }
    if starts_with_chars(&v, &slash) || contains_str(&v, "..") {
        let q = debug_quote(revision);
        return Err(HfError::InvalidInput(cat3("revision ", q.as_str(), " has invalid characters")));
    }
    Ok(())
}

/// Reject an empty repo file name or one holding `..`.
pub fn validate_filename(filename: &str) -> (r: Result<(), HfError>)
    ensures
        checked(filename_problem(filename@), r),
{
    let v = chars_of(filename);
    if v.len() == 0 || contains_str(&v, "..") {
        let q = debug_quote(filename);
        return Err(HfError::InvalidInput(cat("bad filename: ", q.as_str())));
    }
    Ok(())
}

/// `GET` path of the metadata document of `model_id` at `revision`,
/// after both are validated.
pub fn metadata_path(model_id: &str, revision: &str) -> (r: Result<String, HfError>)
    ensures
        model_id_problem(model_id@) is Some ==> checked(model_id_problem(model_id@), r),
        model_id_problem(model_id@) is None ==> checked(revision_problem(revision@), r),
        r matches Ok(p) ==> p@ == "/api/models/"@ + model_id@ + "/revision/"@ + revision@,
{
    validate_model_id(model_id)?;
    validate_revision(revision)?;
    let head = cat3("/api/models/", model_id, "/revision/");
    Ok(cat(head.as_str(), revision))
}

/// `GET` path of file `filename` of `model_id` at `revision`, after all
/// three are validated.
pub fn file_path(model_id: &str, revision: &str, filename: &str) -> (r: Result<String, HfError>)
    ensures
        model_id_problem(model_id@) is Some ==> checked(model_id_problem(model_id@), r),
        model_id_problem(model_id@) is None && revision_problem(revision@) is Some ==> checked(
            revision_problem(revision@),
            r,
        ),
        model_id_problem(model_id@) is None && revision_problem(revision@) is None ==> checked(
            filename_problem(filename@),
            r,
        ),
        r matches Ok(p) ==> p@ == "/"@ + model_id@ + "/resolve/"@ + revision@ + "/"@ + filename@,
{
    validate_model_id(model_id)?;
    validate_revision(revision)?;
    validate_filename(filename)?;
    let a = cat3("/", model_id, "/resolve/");
    let b = cat3(a.as_str(), revision, "/");
    Ok(cat(b.as_str(), filename))
}

/// `j` is the second `/` of `id` and `i` the first.
pub open spec fn second_slash_at(id: Seq<char>, i: int, j: int) -> bool {
    &&& 0 <= i < j < id.len()
    &&& id[i] == '/' && id[j] == '/'
    &&& forall|k: int| 0 <= k < j && k != i ==> id[k] != '/'
}

/// A single-file id `org/repo/file`: the repository `org/repo` (up to
/// the second `/`) and the file path after it; `None` for an id with
/// fewer than two `/`.
pub open spec fn single_file_split(id: Seq<char>) -> Option<(Seq<char>, Seq<char>)> {
    if exists|i: int, j: int| second_slash_at(id, i, j) {
        let (i, j) = choose|i: int, j: int| second_slash_at(id, i, j);
        Some((id.take(j), id.skip(j + 1)))
    } else {
        None
    }
}

/// Split a single-file id into its repository and file (see
/// [`single_file_split`]).
pub fn split_single_file(model_id: &str) -> (r: Option<(String, String)>)
    ensures
        match single_file_split(model_id@) {
            Some((repo, file)) => r matches Some((a, b)) && a@ == repo && b@ == file,
            None => r is None,
        },
{
    let v = chars_of(model_id);
    let mut first: Option<usize> = None;
    let mut k: usize = 0;
    while k < v.len()
        invariant
            k <= v.len(),
            v@ == model_id@,
            match first {
                None => forall|m: int| 0 <= m < k ==> v@[m] != '/',
                Some(i) => i < k && v@[i as int] == '/' && forall|m: int| 0 <= m < k && m != i ==> v@[m] != '/',
            },
        decreases v.len() - k,
    {
        if v[k] == '/' {
            match first {
                None => {
                    first = Some(k);
                },
                Some(i) => {
                    proof {
                        assert(second_slash_at(v@, i as int, k as int));
                        let (i2, j2) = choose|i2: int, j2: int| second_slash_at(v@, i2, j2);
                        if j2 < k {
                            assert(v@[j2] == '/');
                        } else if j2 > k {
                            assert(v@[k as int] == '/');
                        }
                        assert(j2 == k);
                        if i2 != i {
                            if i2 < i {
                                assert(v@[i2] == '/');
                            }
                            assert(v@[i2] == '/');
                        }
                        assert(i2 == i);
                    }
                    let mut repo: Vec<char> = Vec::new();
                    let mut t: usize = 0;
                    while t < k
                        invariant
                            t <= k < v.len(),
                            repo@ == v@.take(t as int),
                        decreases k - t,
                    {
                        repo.push(v[t]);
                        assert(v@.take(t + 1) =~= v@.take(t as int).push(v@[t as int]));
                        t = t + 1;
                    }
                    let mut file: Vec<char> = Vec::new();
                    let mut t: usize = k + 1;
                    while t < v.len()
                        invariant
                            k + 1 <= t <= v.len(),
                            file@ == v@.subrange(k + 1, t as int),
                        decreases v.len() - t,
                    {
                        file.push(v[t]);
                        assert(v@.subrange(k + 1, t + 1) =~= v@.subrange(k + 1, t as int).push(v@[t as int]));
                        t = t + 1;
                    }
                    assert(v@.subrange(k + 1, v.len() as int) =~= v@.skip(k + 1));
                    return Some((string_of(&repo), string_of(&file)));
                },
            }
        }
        k = k + 1;
    }
    proof {
        if exists|i: int, j: int| second_slash_at(v@, i, j) {
            let (i, j) = choose|i: int, j: int| second_slash_at(v@, i, j);
            match first {
                None => {
                    assert(v@[i] == '/');
                },
                Some(f) => {
                    if i != f as int {
                        assert(v@[i] == '/');
                    } else {
                        assert(v@[j] == '/');
                    }
                },
            }
        }
    }
    None
}

} // verus!

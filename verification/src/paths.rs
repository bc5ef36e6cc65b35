//! Unix path joining as `PathBuf::join` performs it, on the char view
//! of paths.
use vstd::prelude::*;

use crate::text::{cat, cat3, chars_of, eq_chars, owned, starts_with, starts_with_chars, string_of};

verus! {

/// `PathBuf::from(base).join(rel)` on Unix: an absolute `rel` replaces
/// `base`; otherwise a `/` is inserted unless `base` is empty or
/// already ends with one.
pub open spec fn join(base: Seq<char>, rel: Seq<char>) -> Seq<char> {
    if starts_with(rel, "/"@) {
        rel
    } else if base.len() == 0 || base.last() == '/' {
        base + rel
    } else {
        base + "/"@ + rel
    }
}

/// `base.join(rel)`.
pub fn join_path(base: &str, rel: &str) -> (r: String)
    ensures
        r@ == join(base@, rel@),
{
    let b = chars_of(base);
    let r = chars_of(rel);
    let slash = chars_of("/");
    if starts_with_chars(&r, &slash) {
        crate::text::owned(rel)
    } else if b.len() == 0 || b[b.len() - 1] == '/' {
        cat(base, rel)
    } else {
        cat3(base, "/", rel)
    }
}

/// The `/`-separated pieces of `p`, empty ones included (`"a//b/"`
/// has the pieces `a`, ``, `b`, ``).
pub open spec fn split_slash(p: Seq<char>) -> Seq<Seq<char>>
    decreases p.len(),
{
    if p.len() == 0 {
        seq![Seq::empty()]
    } else {
        let s = split_slash(p.drop_last());
        if p.last() == '/' {
            s.push(Seq::empty())
        } else {
            s.update(s.len() - 1, s.last().push(p.last()))
        }
    }
}

/// A piece that names something: neither empty nor `.`.
pub open spec fn named(x: Seq<char>) -> bool {
    x.len() > 0 && x != "."@
}

/// The naming pieces of `segs`, in order.
pub open spec fn keep_named(segs: Seq<Seq<char>>) -> Seq<Seq<char>>
    decreases segs.len(),
{
    if segs.len() == 0 {
        Seq::empty()
    } else if named(segs.last()) {
        keep_named(segs.drop_last()).push(segs.last())
    } else {
        keep_named(segs.drop_last())
    }
}

/// `p` is absolute: it starts at the root.
pub open spec fn is_absolute(p: Seq<char>) -> bool {
    p.len() > 0 && p[0] == '/'
}

/// `Path::components` on Unix, each component written as text: the
/// root as `/`, a leading current-directory piece of a relative path
/// as `.`, then every piece that is neither empty nor `.` (a `..`
/// piece is the parent-directory component).
pub open spec fn components(p: Seq<char>) -> Seq<Seq<char>> {
    let head = if is_absolute(p) {
        seq!["/"@]
    } else if split_slash(p)[0] == "."@ {
        seq!["."@]
    } else {
        Seq::empty()
    };
    head + keep_named(split_slash(p))
}

/// `a` is a leading part of `b`.
pub open spec fn is_prefix_of(a: Seq<Seq<char>>, b: Seq<Seq<char>>) -> bool {
    a.len() <= b.len() && forall|i: int| 0 <= i < a.len() ==> a[i] == b[i]
}

/// `Path::starts_with` on Unix: the components of `base` lead those of
/// `p`.
pub open spec fn path_starts_with(p: Seq<char>, base: Seq<char>) -> bool {
    is_prefix_of(components(base), components(p))
}

/// The texts of a list of char vectors.
pub open spec fn views(v: Seq<Vec<char>>) -> Seq<Seq<char>> {
    v.map_values(|x: Vec<char>| x@)
}

proof fn lemma_split_nonempty(p: Seq<char>)
    ensures
        split_slash(p).len() >= 1,
    decreases p.len(),
{
    if p.len() > 0 {
        lemma_split_nonempty(p.drop_last());
    }
}

/// The components of `p`.
pub fn path_components(p: &str) -> (r: Vec<Vec<char>>)
    ensures
        views(r@) == components(p@),
{
    proof {
        reveal_strlit(".");
        reveal_strlit("/");
    }
    let v = chars_of(p);
    let mut named_out: Vec<Vec<char>> = Vec::new();
    let mut cur: Vec<char> = Vec::new();
    let mut first_done = false;
    let mut first_dot = false;
    let mut i: usize = 0;
    assert(v@.take(0) =~= Seq::<char>::empty());
    while i < v.len()
        invariant
            i <= v.len(),
            split_slash(v@.take(i as int)).len() >= 1,
            split_slash(v@.take(i as int)).last() == cur@,
            keep_named(split_slash(v@.take(i as int)).drop_last()) == views(named_out@),
            first_done ==> split_slash(v@.take(i as int)).len() > 1,
            !first_done ==> split_slash(v@.take(i as int)).len() == 1,
            first_done ==> (first_dot <==> split_slash(v@.take(i as int))[0] == "."@),
        decreases v.len() - i,
    {
        let ghost before = split_slash(v@.take(i as int));
        let c = v[i];
        proof {
            assert(v@.take(i + 1).drop_last() =~= v@.take(i as int));
            assert(v@.take(i + 1).last() == c);
        }
        if c == '/' {
            if !first_done {
                first_dot = cur.len() == 1 && cur[0] == '.';
                proof {
                    reveal_strlit(".");
                    if first_dot {
                        assert(cur@ =~= "."@);
                    } else {
                        if cur@ == "."@ {
                            assert(cur@.len() == 1 && cur@[0] == '.');
                        }
                    }
                }
                first_done = true;
            }
            let is_named = cur.len() > 0 && !(cur.len() == 1 && cur[0] == '.');
            proof {
                reveal_strlit(".");
                let now = split_slash(v@.take(i + 1));
                assert(now == before.push(Seq::empty()));
                assert(now.drop_last() =~= before);
                assert(before.drop_last().push(before.last()) =~= before);
                if cur@ == "."@ {
                    assert(cur@.len() == 1 && cur@[0] == '.');
                }
                if cur.len() == 1 && cur[0] == '.' {
                    assert(cur@ =~= "."@);
                }
            }
            if is_named {
                named_out.push(cur);
                proof {
                    assert(views(named_out@) =~= keep_named(before.drop_last()).push(before.last()));
                }
            }
            cur = Vec::new();
        } else {
            cur.push(c);
            proof {
                let now = split_slash(v@.take(i + 1));
                assert(now == before.update(before.len() - 1, before.last().push(c)));
                assert(now.drop_last() =~= before.drop_last());
                if before.len() > 1 {
                    assert(now[0] == before[0]);
                }
            }
        }
        i = i + 1;
    }
    proof {
        assert(v@.take(v.len() as int) =~= v@);
    }
    let ghost segs = split_slash(p@);
    let last_named = cur.len() > 0 && !(cur.len() == 1 && cur[0] == '.');
    let dot_first = if first_done {
        first_dot
    } else {
        cur.len() == 1 && cur[0] == '.'
    };
    proof {
        if cur@ == "."@ {
            assert(cur@.len() == 1 && cur@[0] == '.');
        }
        if cur.len() == 1 && cur[0] == '.' {
            assert(cur@ =~= "."@);
        }
        assert(segs.drop_last().push(segs.last()) =~= segs);
        if !first_done {
            assert(segs[0] == segs.last());
        }
    }
    if last_named {
        named_out.push(cur);
    }
    let mut r: Vec<Vec<char>> = Vec::new();
    if v.len() > 0 && v[0] == '/' {
        r.push(chars_of("/"));
    } else if dot_first {
        r.push(chars_of("."));
    }
    let ghost head = views(r@);
    let ghost tail = views(named_out@);
    assert(tail == keep_named(segs));
    r.append(&mut named_out);
    proof {
        assert(views(r@) =~= head + tail);
        assert(views(r@) =~= components(p@));
    }
    r
}

/// Whether the components of `a` lead those of `b`.
pub fn components_lead(a: &Vec<Vec<char>>, b: &Vec<Vec<char>>) -> (r: bool)
    ensures
        r == is_prefix_of(views(a@), views(b@)),
{
    if a.len() > b.len() {
        return false;
    }
    let mut i: usize = 0;
    while i < a.len()
        invariant
            i <= a.len() <= b.len(),
            forall|k: int| 0 <= k < i ==> views(a@)[k] == views(b@)[k],
        decreases a.len() - i,
    {
        if !eq_chars(&a[i], &b[i]) {
            assert(views(a@)[i as int] != views(b@)[i as int]);
            return false;
        }
        i = i + 1;
    }
    true
}

/// End of the last component of `p[..n]` in the raw text: trailing `/`
/// and `/.` pieces do not count.
pub open spec fn name_end(p: Seq<char>, n: int) -> int
    decreases n,
{
    if n > 0 && n <= p.len() && p[n - 1] == '/' {
        name_end(p, n - 1)
    } else if n >= 2 && n <= p.len() && p[n - 1] == '.' && p[n - 2] == '/' {
        name_end(p, n - 2)
    } else {
        n
    }
}

/// Start of the piece that ends at `n`: one past the last `/` before it.
pub open spec fn piece_start(p: Seq<char>, n: int) -> int
    decreases n,
{
    if n <= 0 || n > p.len() {
        0
    } else if p[n - 1] == '/' {
        n
    } else {
        piece_start(p, n - 1)
    }
}

/// Index of the last `.` in `p[s..n]`, or `s - 1` when there is none.
pub open spec fn last_dot(p: Seq<char>, s: int, n: int) -> int
    decreases n - s,
{
    if n <= s || n > p.len() {
        s - 1
    } else if p[n - 1] == '.' {
        n - 1
    } else {
        last_dot(p, s, n - 1)
    }
}

/// `Path::file_name` on Unix, as the bounds of the name in the raw
/// text: `None` when the path ends in the root, `.` or `..`.
pub open spec fn file_name_bounds(p: Seq<char>) -> Option<(int, int)> {
    let e = name_end(p, p.len() as int);
    let s = piece_start(p, e);
    let name = p.subrange(s, e);
    if name.len() == 0 || name == "."@ || name == ".."@ {
        None
    } else {
        Some((s, e))
    }
}

/// `Path::extension`: what follows the last `.` of the file name, unless
/// that dot opens the name.
pub open spec fn extension_of(p: Seq<char>) -> Option<Seq<char>> {
    match file_name_bounds(p) {
        None => None,
        Some((s, e)) => {
            let d = last_dot(p, s, e);
            if d > s {
                Some(p.subrange(d + 1, e))
            } else {
                None
            }
        },
    }
}

/// `Path::with_extension(ext)` for a non-empty `ext`: the text up to the
/// end of the file stem, then `.` and `ext`; unchanged without a file
/// name.
pub open spec fn with_extension(p: Seq<char>, ext: Seq<char>) -> Seq<char> {
    match file_name_bounds(p) {
        None => p,
        Some((s, e)) => {
            let d = last_dot(p, s, e);
            let stem_end = if d > s { d } else { e };
            p.take(stem_end) + "."@ + ext
        },
    }
}

/// The sibling file a download is streamed into before it is renamed
/// over `dest`: `dest` with its extension (else `bin`) followed by
/// `.partial.` and `unique` as the new extension.
pub open spec fn partial_path_of(dest: Seq<char>, unique: Seq<char>) -> Seq<char> {
    let ext = match extension_of(dest) {
        Some(x) => x,
        None => "bin"@,
    };
    with_extension(dest, ext + ".partial."@ + unique)
}

/// The temporary path for a download to `dest` (see [`partial_path_of`]).
pub fn partial_path(dest: &str, unique: &str) -> (r: String)
    ensures
        r@ == partial_path_of(dest@, unique@),
{
    proof {
        reveal_strlit(".");
        reveal_strlit("..");
    }
    let v = chars_of(dest);
    let n = v.len();
    let mut e: usize = n;
    while (e > 0 && v[e - 1] == '/') || (e >= 2 && v[e - 1] == '.' && v[e - 2] == '/')
        invariant
            e <= n == v@.len(),
            name_end(v@, n as int) == name_end(v@, e as int),
        decreases e,
    {
        if v[e - 1] == '/' {
            e = e - 1;
        } else {
            e = e - 2;
        }
    }
    let mut st: usize = e;
    while st > 0 && v[st - 1] != '/'
        invariant
            st <= e <= n == v@.len(),
            piece_start(v@, e as int) == piece_start(v@, st as int),
        decreases st,
    {
        st = st - 1;
    }
    let ghost name = v@.subrange(st as int, e as int);
    let len = e - st;
    let is_dot = len == 1 && v[st] == '.';
    let is_dotdot = len == 2 && v[st] == '.' && v[st + 1] == '.';
    proof {
        if name == "."@ {
            assert(name.len() == 1 && name[0] == '.');
        }
        if name == ".."@ {
            assert(name.len() == 2 && name[0] == '.' && name[1] == '.');
        }
        if is_dot {
            assert(name =~= "."@);
        }
        if is_dotdot {
            assert(name =~= ".."@);
        }
    }
    if len == 0 || is_dot || is_dotdot {
        return owned(dest);
    }
    let mut d: usize = e;
    while d > st && v[d - 1] != '.'
        invariant
            st <= d <= e <= n == v@.len(),
            last_dot(v@, st as int, e as int) == last_dot(v@, st as int, d as int),
        decreases d,
    {
        d = d - 1;
    }
    let dot: usize = if d > st { d - 1 } else { st };
    let has_ext = d > st && dot > st;
    let mut ext: Vec<char> = Vec::new();
    if has_ext {
        let mut k: usize = dot + 1;
        while k < e
            invariant
                dot + 1 <= k <= e <= n == v@.len(),
                ext@ == v@.subrange(dot + 1, k as int),
            decreases e - k,
        {
            ext.push(v[k]);
            assert(v@.subrange(dot + 1, k + 1) =~= v@.subrange(dot + 1, k as int).push(v@[k as int]));
            k = k + 1;
        }
    } else {
        ext = chars_of("bin");
    }
    let stem_end: usize = if has_ext { dot } else { e };
    let mut out: Vec<char> = Vec::new();
    let mut k: usize = 0;
    while k < stem_end
        invariant
            k <= stem_end <= n == v@.len(),
            out@ == v@.take(k as int),
        decreases stem_end - k,
    {
        out.push(v[k]);
        assert(v@.take(k + 1) =~= v@.take(k as int).push(v@[k as int]));
        k = k + 1;
    }
    let r = cat(cat(cat(cat(string_of(&out).as_str(), ".").as_str(), string_of(&ext).as_str()).as_str(), ".partial.").as_str(), unique);
    proof {
        assert(r@ =~= partial_path_of(dest@, unique@));
    }
    r
}

} // verus!

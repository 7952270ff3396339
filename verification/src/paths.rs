//! Paths and URLs as text: their parts are told apart by `/`, wherever the program runs.

use crate::outside::{is_whitespace, whitespace};
use crate::text::{
    begins_with, chars_of, concat, concat3, find_last, last_occurrence, push_chars, string_of,
};
use vstd::prelude::*;

verus! {

/// The offset at which the whitespace at the front of `s`, looked at from `i` on, ends.
pub open spec fn skip_whitespace(s: Seq<char>, i: int) -> int
    decreases s.len() - i,
{
    if 0 <= i < s.len() && whitespace(s[i]) {
        skip_whitespace(s, i + 1)
    } else {
        i
    }
}

/// The offset at which the whitespace at the back of `s`, looked at from `j` back,
/// starts.
pub open spec fn back_whitespace(s: Seq<char>, j: int) -> int
    decreases j,
{
    if 0 < j <= s.len() && whitespace(s[j - 1]) {
        back_whitespace(s, j - 1)
    } else {
        j
    }
}

/// `s` without the whitespace at its front and at its back.
pub open spec fn trimmed(s: Seq<char>) -> Seq<char> {
    let from = skip_whitespace(s, 0);
    let to = back_whitespace(s, s.len() as int);
    if from >= to {
        Seq::empty()
    } else {
        s.subrange(from, to)
    }
}

/// `s` without the whitespace at its front and at its back.
pub fn trim(s: &str) -> (r: String)
    ensures
        r@ == trimmed(s@),
{
    let v = chars_of(s);
    let mut from: usize = 0;
    while from < v.len() && is_whitespace(v[from])
        invariant
            from <= v@.len(),
            skip_whitespace(v@, 0) == skip_whitespace(v@, from as int),
        decreases v.len() - from,
    {
        from += 1;
    }
    let mut to: usize = v.len();
    while to > 0 && is_whitespace(v[to - 1])
        invariant
            to <= v@.len(),
            back_whitespace(v@, v@.len() as int) == back_whitespace(v@, to as int),
        decreases to,
    {
        to -= 1;
    }
    let mut out = String::new();
    if from < to {
        push_chars(&mut out, &v, from, to);
    }
    assert(out@ =~= trimmed(s@));
    out
}

/// The offset behind the last `/` of `path`; 0 where it holds none.
pub open spec fn name_start(path: Seq<char>) -> int {
    match last_occurrence(path, seq!['/'], path.len() as int) {
        Some(at) => at + 1,
        None => 0,
    }
}

/// What stands behind the last `/` of `path`.
pub open spec fn last_part(path: Seq<char>) -> Seq<char> {
    path.subrange(name_start(path), path.len() as int)
}

/// Whether `path` ends in the name of a file: something other than `.` and `..` stands
/// behind its last `/`.
pub open spec fn names_file(path: Seq<char>) -> bool {
    let name = last_part(path);
    name.len() > 0 && name != seq!['.'] && name != seq!['.', '.']
}

/// The offset in the file name of `path` at which its extension is set off: that of its
/// last `.`, unless the name starts with that `.`.
pub open spec fn extension_dot(path: Seq<char>) -> Option<int> {
    if !names_file(path) {
        None
    } else {
        match last_occurrence(last_part(path), seq!['.'], last_part(path).len() as int) {
            Some(dot) => if dot > 0 {
                Some(dot)
            } else {
                None
            },
            None => None,
        }
    }
}

/// The extension of the file that `path` names: what stands behind the last `.` of the
/// file name, unless the name starts with that `.`.
pub open spec fn extension(path: Seq<char>) -> Option<Seq<char>> {
    match extension_dot(path) {
        Some(dot) => Some(last_part(path).subrange(dot + 1, last_part(path).len() as int)),
        None => None,
    }
}

/// The name of the file that `path` names, without its extension.
pub open spec fn file_stem(path: Seq<char>) -> Option<Seq<char>> {
    if !names_file(path) {
        None
    } else {
        match extension_dot(path) {
            Some(dot) => Some(last_part(path).subrange(0, dot)),
            None => Some(last_part(path)),
        }
    }
}

/// `path` with `ext` as the extension of the file it names: in place of the one it
/// has, or behind the name. An empty `ext` leaves the file without extension, and a path
/// that names no file stays as it is.
pub open spec fn with_extension(path: Seq<char>, ext: Seq<char>) -> Seq<char> {
    match file_stem(path) {
        Some(stem) => {
            let kept = path.subrange(0, name_start(path) + stem.len());
            if ext.len() == 0 {
                kept
            } else {
                kept + seq!['.'] + ext
            }
        },
        None => path,
    }
}

/// Where the file name of `path` starts, and where its extension is set off.
fn name_parts(path: &Vec<char>) -> (r: (usize, bool, Option<usize>))
    ensures
        r.0 == name_start(path@),
        r.0 <= path@.len(),
        r.1 == names_file(path@),
        match r.2 {
            Some(dot) => extension_dot(path@) == Some(dot as int) && 0 < dot < path@.len() - r.0,
            None => extension_dot(path@) is None,
        },
{
    let slash = vec!['/'];
    let dot = vec!['.'];
    let total = path.len();
    assert(slash@ =~= seq!['/']);
    assert(dot@ =~= seq!['.']);
    let start: usize = match find_last(path, &slash) {
        Some(at) => {
            proof {
                crate::text::lemma_last_occurrence_bounds(path@, slash@, path@.len() as int);
            }
            at + 1
        },
        None => 0,
    };
    assert(slash@ =~= seq!['/']);
    assert(dot@ =~= seq!['.']);
    let mut name: Vec<char> = Vec::new();
    let mut i: usize = start;
    while i < path.len()
        invariant
            start <= i <= path@.len(),
            name@ == path@.subrange(start as int, i as int),
        decreases path.len() - i,
    {
        name.push(path[i]);
        assert(path@.subrange(start as int, i + 1) =~= path@.subrange(start as int, i as int).push(
            path@[i as int],
        ));
        i += 1;
    }
    let is_file = !(name.len() == 0 || (name.len() == 1 && name[0] == '.') || (name.len() == 2
        && name[0] == '.' && name[1] == '.'));
    proof {
        if name@.len() == 1 && name@[0] == '.' {
            assert(name@ =~= seq!['.']);
        }
        if name@.len() == 2 && name@[0] == '.' && name@[1] == '.' {
            assert(name@ =~= seq!['.', '.']);
        }
        if name@ == seq!['.'] {
            assert(name@.len() == 1 && name@[0] == '.');
        }
        if name@ == seq!['.', '.'] {
            assert(name@.len() == 2 && name@[0] == '.' && name@[1] == '.');
        }
    }
    if !is_file {
        return (start, false, None);
    }
    match find_last(&name, &dot) {
        Some(at) => {
            proof {
                crate::text::lemma_last_occurrence_bounds(name@, dot@, name@.len() as int);
            }
            if at > 0 {
                (start, true, Some(at))
            } else {
                (start, true, None)
            }
        },
        None => (start, true, None),
    }
}

/// Whether `path` ends in the name of a file.
pub fn is_file_name(path: &str) -> (r: bool)
    ensures
        r == names_file(path@),
{
    let v = chars_of(path);
    let (_, is_file, _) = name_parts(&v);
    is_file
}

/// The extension of the file that `path` names.
pub fn extension_of(path: &str) -> (r: Option<String>)
    ensures
        match r {
            Some(ext) => extension(path@) == Some(ext@),
            None => extension(path@) is None,
        },
{
    let v = chars_of(path);
    let total = v.len();
    let (start, _, dot) = name_parts(&v);
    match dot {
        Some(d) => {
            let mut out = String::new();
            push_chars(&mut out, &v, start + d + 1, v.len());
            assert(out@ =~= last_part(path@).subrange(d + 1, last_part(path@).len() as int));
            Some(out)
        },
        None => None,
    }
}

/// The name of the file that `path` names, without its extension.
pub fn file_stem_of(path: &str) -> (r: Option<String>)
    ensures
        match r {
            Some(stem) => file_stem(path@) == Some(stem@),
            None => file_stem(path@) is None,
        },
{
    let v = chars_of(path);
    let total = v.len();
    let (start, is_file, dot) = name_parts(&v);
    if !is_file {
        return None;
    }
    let mut out = String::new();
    match dot {
        Some(d) => {
            push_chars(&mut out, &v, start, start + d);
            assert(out@ =~= last_part(path@).subrange(0, d as int));
        },
        None => {
            push_chars(&mut out, &v, start, v.len());
            assert(out@ =~= last_part(path@));
        },
    }
    Some(out)
}

/// `path` with `ext` as the extension of the file it names.
pub fn set_extension(path: &str, ext: &str) -> (r: String)
    ensures
        r@ == with_extension(path@, ext@),
{
    let v = chars_of(path);
    let total = v.len();
    let (start, is_file, dot) = name_parts(&v);
    if !is_file {
        return path.to_owned();
    }
    let stem_end: usize = match dot {
        Some(d) => start + d,
        None => v.len(),
    };
    let mut out = String::new();
    push_chars(&mut out, &v, 0, stem_end);
    let e = chars_of(ext);
    if e.len() > 0 {
        out.push('.');
        out.append(ext);
    }
    proof {
        let stem = file_stem(path@).unwrap();
        assert(stem_end == name_start(path@) + stem.len());
        assert(out@ =~= with_extension(path@, ext@));
    }
    out
}

/// `rel` below the directory `dir`: the two with one `/` between them, and `rel` alone
/// below the empty directory.
pub open spec fn joined_path(dir: Seq<char>, rel: Seq<char>) -> Seq<char> {
    if dir.len() == 0 {
        rel
    } else if dir.last() == '/' {
        dir + rel
    } else {
        dir + seq!['/'] + rel
    }
}

/// `rel` below the directory `dir`.
pub fn join_path(dir: &str, rel: &str) -> (r: String)
    ensures
        r@ == joined_path(dir@, rel@),
{
    let d = chars_of(dir);
    proof {
        reveal_strlit("/");
    }
    if d.len() == 0 {
        rel.to_owned()
    } else if d[d.len() - 1] == '/' {
        concat(dir, rel)
    } else {
        let r = concat3(dir, "/", rel);
        assert("/"@ =~= seq!['/']);
        r
    }
}

/// What `path` is below the directory `dir`; nothing where it does not lie below it.
pub open spec fn relative_to(path: Seq<char>, dir: Seq<char>) -> Option<Seq<char>> {
    if dir.len() == 0 {
        Some(path)
    } else if !begins_with(path, dir) {
        None
    } else {
        let rest = path.subrange(dir.len() as int, path.len() as int);
        if rest.len() == 0 || dir.last() == '/' {
            Some(rest)
        } else if rest[0] == '/' {
            Some(rest.subrange(1, rest.len() as int))
        } else {
            None
        }
    }
}

/// Makes the given `path` relative to the given `output` directory.
pub fn path_to_relative(path: &str, output: &str) -> (r: Option<String>)
    ensures
        match r {
            Some(rel) => relative_to(path@, output@) == Some(rel@),
            None => relative_to(path@, output@) is None,
        },
{
    let p = chars_of(path);
    let d = chars_of(output);
    if d.len() == 0 {
        return Some(path.to_owned());
    }
    if !crate::text::matches_at(&p, &d, 0) {
        return None;
    }
    let mut out = String::new();
    if p.len() == d.len() || d[d.len() - 1] == '/' {
        push_chars(&mut out, &p, d.len(), p.len());
        Some(out)
    } else if p[d.len()] == '/' {
        push_chars(&mut out, &p, d.len() + 1, p.len());
        assert(out@ =~= path@.subrange(output@.len() as int, path@.len() as int).subrange(
            1,
            path@.len() - output@.len(),
        ));
        Some(out)
    } else {
        None
    }
}

/// A path that was put below a directory is found below it again.
pub proof fn law_relative_of_joined(dir: Seq<char>, rel: Seq<char>)
    requires
        rel.len() > 0 ==> rel[0] != '/',
    ensures
        relative_to(joined_path(dir, rel), dir) == Some(rel),
{
    if dir.len() == 0 {
    } else if dir.last() == '/' {
        let path = dir + rel;
        assert(path.subrange(0, dir.len() as int) =~= dir);
        assert(path.subrange(dir.len() as int, path.len() as int) =~= rel);
    } else {
        let path = dir + seq!['/'] + rel;
        assert(path.subrange(0, dir.len() as int) =~= dir);
        let rest = path.subrange(dir.len() as int, path.len() as int);
        assert(rest =~= seq!['/'] + rel);
        assert(rest.subrange(1, rest.len() as int) =~= rel);
    }
}

/// The offset at which the run of `/` that stands at `i` in `s` ends.
pub open spec fn run_end(s: Seq<char>, i: int) -> int
    decreases s.len() - i,
{
    if 0 <= i < s.len() && s[i] == '/' {
        run_end(s, i + 1)
    } else {
        i
    }
}

/// Whether two or more `/` stand in `s` behind offset `i`, and a character other than
/// `:` and `/` at `i`.
pub open spec fn run_follows(s: Seq<char>, i: int) -> bool {
    0 <= i && i + 2 < s.len() && s[i] != ':' && s[i] != '/' && s[i + 1] == '/' && s[i + 2] == '/'
}

/// `s` from offset `i` on, with each run of two or more `/` behind a character other
/// than `:` made one `/`.
pub open spec fn collapsed_from(s: Seq<char>, i: int) -> Seq<char>
    decreases s.len() - i,
{
    if i < 0 || i >= s.len() {
        Seq::empty()
    } else if run_follows(s, i) && i < run_end(s, i + 1) <= s.len() {
        seq![s[i], '/'] + collapsed_from(s, run_end(s, i + 1))
    } else {
        seq![s[i]] + collapsed_from(s, i + 1)
    }
}

/// `s` with each run of two or more `/` made one `/`, but at the front of `s` and
/// behind a `:`.
pub open spec fn collapsed(s: Seq<char>) -> Seq<char> {
    collapsed_from(s, 0)
}

proof fn lemma_run_end_bounds(s: Seq<char>, i: int)
    requires
        0 <= i <= s.len(),
    ensures
        i <= run_end(s, i) <= s.len(),
        i < s.len() && s[i] == '/' ==> run_end(s, i) > i,
    decreases s.len() - i,
{
    if i < s.len() && s[i] == '/' {
        lemma_run_end_bounds(s, i + 1);
    }
}

/// Gets rid of multiple consecutive slashes in `url`, but for those behind a `:`.
pub fn collapse_slashes(url: &str) -> (r: String)
    ensures
        r@ == collapsed(url@),
{
    let v = chars_of(url);
    let mut out: Vec<char> = Vec::new();
    let mut i: usize = 0;
    while i < v.len()
        invariant
            i <= v@.len(),
            v@ == url@,
            out@ + collapsed_from(url@, i as int) == collapsed(url@),
        decreases v.len() - i,
    {
        let c = v[i];
        let ghost before = out@;
        if c != ':' && c != '/' && v.len() - i > 2 && v[i + 1] == '/' && v[i + 2] == '/' {
            out.push(c);
            out.push('/');
            let mut j: usize = i + 1;
            while j < v.len() && v[j] == '/'
                invariant
                    i < j <= v@.len(),
                    run_end(v@, i + 1) == run_end(v@, j as int),
                decreases v.len() - j,
            {
                j += 1;
            }
            proof {
                lemma_run_end_bounds(v@, i + 1);
                assert(out@ + collapsed_from(url@, j as int) =~= before + collapsed_from(
                    url@,
                    i as int,
                ));
            }
            i = j;
        } else {
            out.push(c);
            assert(out@ + collapsed_from(url@, i + 1) =~= before + collapsed_from(url@, i as int));
            i += 1;
        }
    }
    assert(out@ =~= collapsed(url@));
    string_of(&out)
}

} // verus!

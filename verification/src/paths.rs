//! Path-string helpers: file name, parent directory, stem, normalized
//! extension and joining. Paths are plain strings; both `/` and `\` separate
//! components, and joining uses `/`.

use vstd::prelude::*;

use crate::chars::chars_of;
use crate::chars::lower_char;
use crate::chars::spec_lower_char;
use crate::trusted::push_char;

verus! {

pub open spec fn spec_is_sep(c: char) -> bool {
    c == '/' || c == '\\'
}

pub fn is_sep_char(c: char) -> (r: bool)
    ensures
        r == spec_is_sep(c),
{
    c == '/' || c == '\\'
}

/// ASCII case folding applied to a whole sequence.
pub open spec fn spec_lower_seq(s: Seq<char>) -> Seq<char> {
    s.map_values(|c: char| spec_lower_char(c))
}

/// Start index of the file name: the position right after the last separator
/// in `s.take(i)`, or 0 when there is none.
pub open spec fn file_name_start(s: Seq<char>, i: int) -> int
    decreases i,
{
    if 0 < i && i <= s.len() && !spec_is_sep(s[i - 1]) {
        file_name_start(s, i - 1)
    } else {
        i
    }
}

pub proof fn lemma_file_name_start_bounds(s: Seq<char>, i: int)
    requires
        0 <= i <= s.len(),
    ensures
        0 <= file_name_start(s, i) <= i,
    decreases i,
{
    if 0 < i && !spec_is_sep(s[i - 1]) {
        lemma_file_name_start_bounds(s, i - 1);
    }
}

fn file_name_start_exec(v: &Vec<char>, i: usize) -> (r: usize)
    requires
        i <= v.len(),
    ensures
        r as int == file_name_start(v@, i as int),
        r <= i,
    decreases i,
{
    if 0 < i && !is_sep_char(v[i - 1]) {
        file_name_start_exec(v, i - 1)
    } else {
        i
    }
}

/// The file name of a path: everything after the last separator.
pub open spec fn spec_file_name(p: Seq<char>) -> Seq<char> {
    p.subrange(file_name_start(p, p.len() as int), p.len() as int)
}

pub fn file_name_of(p: &str) -> (r: String)
    ensures
        r@ == spec_file_name(p@),
{
    let v = chars_of(p);
    proof {
        lemma_file_name_start_bounds(v@, v@.len() as int);
    }
    let st = file_name_start_exec(&v, v.len());
    p.substring_char(st, v.len()).to_owned()
}

/// The parent directory of a path: everything before the last separator, or
/// the empty string when the path is a bare file name.
pub open spec fn spec_parent_dir(p: Seq<char>) -> Seq<char> {
    let st = file_name_start(p, p.len() as int);
    if st > 0 {
        p.subrange(0, st - 1)
    } else {
        Seq::empty()
    }
}

pub fn parent_dir_of(p: &str) -> (r: String)
    ensures
        r@ == spec_parent_dir(p@),
{
    let v = chars_of(p);
    proof {
        lemma_file_name_start_bounds(v@, v@.len() as int);
    }
    let st = file_name_start_exec(&v, v.len());
    if st > 0 {
        p.substring_char(0, st - 1).to_owned()
    } else {
        String::new()
    }
}

/// Index of the last `.` in `f.take(i)`, or -1 when there is none.
pub open spec fn last_dot_from(f: Seq<char>, i: int) -> int
    decreases i,
{
    if 0 < i && i <= f.len() {
        if f[i - 1] == '.' {
            i - 1
        } else {
            last_dot_from(f, i - 1)
        }
    } else {
        -1
    }
}

pub proof fn lemma_last_dot_bounds(f: Seq<char>, i: int)
    requires
        0 <= i <= f.len(),
    ensures
        -1 <= last_dot_from(f, i) < i,
    decreases i,
{
    if 0 < i && f[i - 1] != '.' {
        lemma_last_dot_bounds(f, i - 1);
    }
}

/// Index of the last `.` of `f`, as `Some(j)`, or `None` when there is none;
/// mirrors `last_dot_from` on the side of executable code.
fn last_dot_exec(v: &Vec<char>, i: usize) -> (r: Option<usize>)
    requires
        i <= v.len(),
    ensures
        match r {
            Some(j) => last_dot_from(v@, i as int) == j as int && j < i,
            None => last_dot_from(v@, i as int) == -1,
        },
    decreases i,
{
    if 0 < i {
        if v[i - 1] == '.' {
            Some(i - 1)
        } else {
            last_dot_exec(v, i - 1)
        }
    } else {
        None
    }
}

/// The stem of a path's file name: the file name up to its last `.`, or the
/// whole file name when there is no `.` or it comes first.
pub open spec fn spec_stem(p: Seq<char>) -> Seq<char> {
    let f = spec_file_name(p);
    let d = last_dot_from(f, f.len() as int);
    if d <= 0 {
        f
    } else {
        f.subrange(0, d)
    }
}

pub fn file_stem_of(p: &str) -> (r: String)
    ensures
        r@ == spec_stem(p@),
{
    let name = file_name_of(p);
    let v = chars_of(name.as_str());
    proof {
        lemma_last_dot_bounds(v@, v@.len() as int);
    }
    match last_dot_exec(&v, v.len()) {
        Some(d) => {
            if d == 0 {
                name
            } else {
                name.as_str().substring_char(0, d).to_owned()
            }
        },
        None => name,
    }
}

/// The normalized extension of a path: a leading dot followed by the
/// lowercased characters after the file name's last `.`; `None` when the file
/// name has no `.` or starts with its only one.
pub open spec fn spec_normalized_ext(p: Seq<char>) -> Option<Seq<char>> {
    let f = spec_file_name(p);
    let d = last_dot_from(f, f.len() as int);
    if d <= 0 {
        None
    } else {
        Some(seq!['.'] + spec_lower_seq(f.subrange(d + 1, f.len() as int)))
    }
}

pub fn normalized_ext_of(p: &str) -> (r: Option<String>)
    ensures
        match r {
            Some(e) => spec_normalized_ext(p@) == Some(e@),
            None => spec_normalized_ext(p@) is None,
        },
{
    let name = file_name_of(p);
    let v = chars_of(name.as_str());
    proof {
        lemma_last_dot_bounds(v@, v@.len() as int);
    }
    match last_dot_exec(&v, v.len()) {
        Some(d) => {
            if d == 0 {
                None
            } else {
                let mut out = String::new();
                push_char(&mut out, '.');
                let mut i: usize = d + 1;
                while i < v.len()
                    invariant
                        d + 1 <= i <= v.len(),
                        out@ == seq!['.'] + spec_lower_seq(v@.subrange(d + 1, i as int)),
                    decreases v.len() - i,
                {
                    push_char(&mut out, lower_char(v[i]));
                    proof {
                        assert(v@.subrange(d + 1, i + 1) =~= v@.subrange(d + 1, i as int).push(
                            v@[i as int],
                        ));
                        assert(spec_lower_seq(v@.subrange(d + 1, i + 1)) =~= spec_lower_seq(
                            v@.subrange(d + 1, i as int),
                        ).push(spec_lower_char(v@[i as int])));
                    }
                    i += 1;
                }
                proof {
                    assert(v@.subrange(d + 1, v@.len() as int) =~= v@.subrange(
                        d + 1,
                        v@.len() as int,
                    ));
                }
                Some(out)
            }
        },
        None => None,
    }
}

/// ASCII-lowercases a whole string.
pub fn lower_string(s: &str) -> (r: String)
    ensures
        r@ == spec_lower_seq(s@),
{
    let v = chars_of(s);
    let mut out = String::new();
    let mut i: usize = 0;
    while i < v.len()
        invariant
            i <= v.len(),
            v@ == s@,
            out@ == spec_lower_seq(s@.take(i as int)),
        decreases v.len() - i,
    {
        push_char(&mut out, lower_char(v[i]));
        proof {
            assert(spec_lower_seq(s@.take(i + 1)) =~= spec_lower_seq(s@.take(i as int)).push(
                spec_lower_char(s@[i as int]),
            ));
        }
        i += 1;
    }
    proof {
        assert(s@.take(s@.len() as int) =~= s@);
    }
    out
}

/// Joins a directory and a file name with `/`; an empty directory yields the
/// bare name.
pub open spec fn spec_join(dir: Seq<char>, name: Seq<char>) -> Seq<char> {
    if dir.len() == 0 {
        name
    } else {
        dir + seq!['/'] + name
    }
}

pub fn join_path(dir: &str, name: &str) -> (r: String)
    ensures
        r@ == spec_join(dir@, name@),
{
    if dir.unicode_len() == 0 {
        name.to_owned()
    } else {
        let mut out = dir.to_owned();
        push_char(&mut out, '/');
        out.append(name);
        proof {
            assert(out@ =~= dir@ + seq!['/'] + name@);
        }
        out
    }
}

} // verus!

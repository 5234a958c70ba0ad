//! The pattern engine behind title cleaning and disc-set detection.
//!
//! Two pattern families are recognized, both scanned left to right with the
//! leftmost occurrence winning:
//! - bracket tags: optional whitespace, an opening bracket, any run of
//!   characters up to the matching closer (title cleaning);
//! - disc indicators: `disc`, `disk` and `cd` markers in bracketed,
//!   hyphen-prefixed, trailing-word and underscore-infix forms, each carrying
//!   a digit run that names the disc number (disc-set detection).

use vstd::prelude::*;

use crate::chars::digits_val;
use crate::chars::is_space_char;
use crate::chars::lemma_skip_digits_bounds;
use crate::chars::lemma_skip_non_spaces_bounds;
use crate::chars::lemma_skip_spaces_bounds;
use crate::chars::lemma_skip_to_char_bounds;
use crate::chars::skip_digits;
use crate::chars::skip_digits_at;
use crate::chars::skip_non_spaces;
use crate::chars::skip_non_spaces_at;
use crate::chars::skip_spaces;
use crate::chars::skip_spaces_at;
use crate::chars::skip_to_char;
use crate::chars::skip_to_char_at;
use crate::chars::spec_is_digit;
use crate::chars::spec_is_space;
use crate::chars::word_at;
use crate::chars::word_at_exec;

verus! {

// ===================== bracket tags =====================

/// Length of the bracket-tag match starting at `i`: a whitespace run, the
/// `open` character, a run of non-`close` characters, then `close`. `None`
/// when no such tag starts at `i`.
pub open spec fn tag_match_len(s: Seq<char>, i: int, open: char, close: char) -> Option<int> {
    let a = skip_spaces(s, i);
    if a < s.len() && s[a] == open {
        let b = skip_to_char(s, a + 1, close);
        if b < s.len() {
            Some(b + 1 - i)
        } else {
            None
        }
    } else {
        None
    }
}

fn tag_match_len_exec(v: &Vec<char>, i: usize, open: char, close: char) -> (r: Option<usize>)
    requires
        i <= v.len(),
    ensures
        match r {
            Some(l) => tag_match_len(v@, i as int, open, close) == Some(l as int) && 1 <= l && i + l
                <= v.len(),
            None => tag_match_len(v@, i as int, open, close) is None,
        },
{
    proof {
        lemma_skip_spaces_bounds(v@, i as int);
    }
    let a = skip_spaces_at(v, i);
    if a < v.len() && v[a] == open {
        proof {
            lemma_skip_to_char_bounds(v@, a + 1, close);
        }
        let b = skip_to_char_at(v, a + 1, close);
        if b < v.len() {
            Some(b + 1 - i)
        } else {
            None
        }
    } else {
        None
    }
}

/// `s` from position `i` on, with every bracket tag removed.
pub open spec fn strip_tags_from(s: Seq<char>, i: int, open: char, close: char) -> Seq<char>
    decreases s.len() - i,
{
    if 0 <= i && i < s.len() {
        match tag_match_len(s, i, open, close) {
            Some(l) => strip_tags_from(s, i + (if l < 1 { 1int } else { l }), open, close),
            None => seq![s[i]] + strip_tags_from(s, i + 1, open, close),
        }
    } else {
        Seq::empty()
    }
}

pub fn strip_tags_exec(s: &str, v: &Vec<char>, i: usize, open: char, close: char) -> (r: String)
    requires
        v@ == s@,
        i <= v.len(),
    ensures
        r@ == strip_tags_from(s@, i as int, open, close),
    decreases v.len() - i,
{
    if i < v.len() {
        match tag_match_len_exec(v, i, open, close) {
            Some(l) => strip_tags_exec(s, v, i + l, open, close),
            None => {
                let piece = s.substring_char(i, i + 1);
                let rest = strip_tags_exec(s, v, i + 1, open, close);
                let mut out = piece.to_owned();
                out.append(rest.as_str());
                proof {
                    assert(s@.subrange(i as int, i + 1) =~= seq![s@[i as int]]);
                }
                out
            },
        }
    } else {
        String::new()
    }
}

// ===================== disc indicators =====================

/// The syntactic shape of a disc indicator.
pub enum DiscPatternKind {
    /// `(disc 2)`, `[disk 1 of 3]`, `(cd2)`: an opening bracket, the word,
    /// digits, an optional `of <digits>` clause, a closing bracket.
    Bracketed,
    /// `- disc 1`: an optional whitespace run, a hyphen, the word, digits.
    Hyphenated,
    /// `Game disc 1`: whitespace, the word, digits, end of string.
    Trailing,
    /// `Game_disc1`: an underscore, the word, digits.
    Infix,
}

pub open spec fn word_disc() -> Seq<char> {
    seq!['d', 'i', 's', 'c']
}

pub open spec fn word_disk() -> Seq<char> {
    seq!['d', 'i', 's', 'k']
}

pub open spec fn word_cd() -> Seq<char> {
    seq!['c', 'd']
}

pub open spec fn word_of() -> Seq<char> {
    seq!['o', 'f']
}

/// End position of an `of <digits>` clause beginning at `c`, if one is there.
pub open spec fn of_clause_end(s: Seq<char>, c: int) -> Option<int> {
    let o = skip_spaces(s, c);
    if word_at(s, o, word_of()) {
        let p = skip_spaces(s, o + 2);
        let q = skip_digits(s, p);
        if q > p {
            Some(q)
        } else {
            None
        }
    } else {
        None
    }
}

/// A disc-indicator match at position `i`: `(length, digits start, digits end)`,
/// the digit run being the captured disc number.
pub open spec fn disc_match_at(
    s: Seq<char>,
    i: int,
    kind: DiscPatternKind,
    w: Seq<char>,
    allow_of: bool,
) -> Option<(int, int, int)> {
    match kind {
        DiscPatternKind::Bracketed => {
            if 0 <= i && i < s.len() && (s[i] == '(' || s[i] == '[') {
                let a = skip_spaces(s, i + 1);
                if word_at(s, a, w) {
                    let b = skip_spaces(s, a + w.len());
                    let c = skip_digits(s, b);
                    if c > b {
                        match (if allow_of {
                            of_clause_end(s, c)
                        } else {
                            None
                        }) {
                            Some(q) => {
                                if q < s.len() && (s[q] == ')' || s[q] == ']') {
                                    Some((q + 1 - i, b, c))
                                } else if c < s.len() && (s[c] == ')' || s[c] == ']') {
                                    Some((c + 1 - i, b, c))
                                } else {
                                    None
                                }
                            },
                            None => {
                                if c < s.len() && (s[c] == ')' || s[c] == ']') {
                                    Some((c + 1 - i, b, c))
                                } else {
                                    None
                                }
                            },
                        }
                    } else {
                        None
                    }
                } else {
                    None
                }
            } else {
                None
            }
        },
        DiscPatternKind::Hyphenated => {
            if 0 <= i && i < s.len() {
                let a = skip_spaces(s, i);
                if a < s.len() && s[a] == '-' {
                    let b = skip_spaces(s, a + 1);
                    if word_at(s, b, w) {
                        let c = skip_spaces(s, b + w.len());
                        let d = skip_digits(s, c);
                        if d > c {
                            Some((d - i, c, d))
                        } else {
                            None
                        }
                    } else {
                        None
                    }
                } else {
                    None
                }
            } else {
                None
            }
        },
        DiscPatternKind::Trailing => {
            if 0 <= i && i < s.len() && spec_is_space(s[i]) {
                let a = skip_spaces(s, i);
                if word_at(s, a, w) {
                    let b = skip_spaces(s, a + w.len());
                    let c = skip_digits(s, b);
                    if c > b && c == s.len() {
                        Some((c - i, b, c))
                    } else {
                        None
                    }
                } else {
                    None
                }
            } else {
                None
            }
        },
        DiscPatternKind::Infix => {
            if 0 <= i && i < s.len() && s[i] == '_' {
                if word_at(s, i + 1, w) {
                    let b = i + 1 + w.len();
                    let c = skip_digits(s, b);
                    if c > b {
                        Some((c - i, b, c))
                    } else {
                        None
                    }
                } else {
                    None
                }
            } else {
                None
            }
        },
    }
}

fn disc_match_at_exec(
    v: &Vec<char>,
    i: usize,
    kind: &DiscPatternKind,
    w: &Vec<char>,
    allow_of: bool,
) -> (r: Option<(usize, usize, usize)>)
    requires
        i < v.len(),
    ensures
        match r {
            Some(m) => disc_match_at(v@, i as int, *kind, w@, allow_of) == Some(
                (m.0 as int, m.1 as int, m.2 as int),
            ) && 1 <= m.0 && i + m.0 <= v.len() && m.1 < m.2 && m.2 <= v.len() && (forall|j: int|
                m.1 <= j < m.2 ==> spec_is_digit(v@[j])),
            None => disc_match_at(v@, i as int, *kind, w@, allow_of) is None,
        },
{
    match kind {
        DiscPatternKind::Bracketed => {
            if v[i] == '(' || v[i] == '[' {
                proof {
                    lemma_skip_spaces_bounds(v@, i + 1);
                }
                let a = skip_spaces_at(v, i + 1);
                if word_at_exec(v, a, w) {
                    proof {
                        lemma_skip_spaces_bounds(v@, a + w@.len() as int);
                    }
                    let b = skip_spaces_at(v, a + w.len());
                    proof {
                        lemma_skip_digits_bounds(v@, b as int);
                    }
                    let c = skip_digits_at(v, b);
                    if c > b {
                        let of_end: Option<usize> = if allow_of {
                            of_clause_end_exec(v, c)
                        } else {
                            None
                        };
                        match of_end {
                            Some(q) => {
                                if q < v.len() && (v[q] == ')' || v[q] == ']') {
                                    Some((q + 1 - i, b, c))
                                } else if c < v.len() && (v[c] == ')' || v[c] == ']') {
                                    Some((c + 1 - i, b, c))
                                } else {
                                    None
                                }
                            },
                            None => {
                                if c < v.len() && (v[c] == ')' || v[c] == ']') {
                                    Some((c + 1 - i, b, c))
                                } else {
                                    None
                                }
                            },
                        }
                    } else {
                        None
                    }
                } else {
                    None
                }
            } else {
                None
            }
        },
        DiscPatternKind::Hyphenated => {
            proof {
                lemma_skip_spaces_bounds(v@, i as int);
            }
            let a = skip_spaces_at(v, i);
            if a < v.len() && v[a] == '-' {
                proof {
                    lemma_skip_spaces_bounds(v@, a + 1);
                }
                let b = skip_spaces_at(v, a + 1);
                if word_at_exec(v, b, w) {
                    proof {
                        lemma_skip_spaces_bounds(v@, b + w@.len() as int);
                    }
                    let c = skip_spaces_at(v, b + w.len());
                    proof {
                        lemma_skip_digits_bounds(v@, c as int);
                    }
                    let d = skip_digits_at(v, c);
                    if d > c {
                        Some((d - i, c, d))
                    } else {
                        None
                    }
                } else {
                    None
                }
            } else {
                None
            }
        },
        DiscPatternKind::Trailing => {
            if is_space_char(v[i]) {
                proof {
                    lemma_skip_spaces_bounds(v@, i as int);
                }
                let a = skip_spaces_at(v, i);
                if word_at_exec(v, a, w) {
                    proof {
                        lemma_skip_spaces_bounds(v@, a + w@.len() as int);
                    }
                    let b = skip_spaces_at(v, a + w.len());
                    proof {
                        lemma_skip_digits_bounds(v@, b as int);
                    }
                    let c = skip_digits_at(v, b);
                    if c > b && c == v.len() {
                        Some((c - i, b, c))
                    } else {
                        None
                    }
                } else {
                    None
                }
            } else {
                None
            }
        },
        DiscPatternKind::Infix => {
            if v[i] == '_' {
                if word_at_exec(v, i + 1, w) {
                    let b = i + 1 + w.len();
                    proof {
                        lemma_skip_digits_bounds(v@, b as int);
                    }
                    let c = skip_digits_at(v, b);
                    if c > b {
                        Some((c - i, b, c))
                    } else {
                        None
                    }
                } else {
                    None
                }
            } else {
                None
            }
        },
    }
}

fn of_clause_end_exec(v: &Vec<char>, c: usize) -> (r: Option<usize>)
    requires
        c <= v.len(),
    ensures
        match r {
            Some(q) => of_clause_end(v@, c as int) == Some(q as int) && c <= q <= v.len(),
            None => of_clause_end(v@, c as int) is None,
        },
{
    proof {
        lemma_skip_spaces_bounds(v@, c as int);
    }
    let o = skip_spaces_at(v, c);
    let w = word_of_vec();
    if word_at_exec(v, o, &w) {
        proof {
            lemma_skip_spaces_bounds(v@, o + 2);
        }
        let p = skip_spaces_at(v, o + 2);
        proof {
            lemma_skip_digits_bounds(v@, p as int);
        }
        let q = skip_digits_at(v, p);
        if q > p {
            Some(q)
        } else {
            None
        }
    } else {
        None
    }
}

// ===================== word vectors =====================

pub fn word_disc_vec() -> (w: Vec<char>)
    ensures
        w@ == word_disc(),
{
    let mut w: Vec<char> = Vec::new();
    w.push('d');
    w.push('i');
    w.push('s');
    w.push('c');
    proof {
        assert(w@ =~= word_disc());
    }
    w
}

pub fn word_disk_vec() -> (w: Vec<char>)
    ensures
        w@ == word_disk(),
{
    let mut w: Vec<char> = Vec::new();
    w.push('d');
    w.push('i');
    w.push('s');
    w.push('k');
    proof {
        assert(w@ =~= word_disk());
    }
    w
}

pub fn word_cd_vec() -> (w: Vec<char>)
    ensures
        w@ == word_cd(),
{
    let mut w: Vec<char> = Vec::new();
    w.push('c');
    w.push('d');
    proof {
        assert(w@ =~= word_cd());
    }
    w
}

fn word_of_vec() -> (w: Vec<char>)
    ensures
        w@ == word_of(),
{
    let mut w: Vec<char> = Vec::new();
    w.push('o');
    w.push('f');
    proof {
        assert(w@ =~= word_of());
    }
    w
}

// ===================== search and removal =====================

/// The leftmost disc-indicator match at or after `i`:
/// `(start, length, digits start, digits end)`.
pub open spec fn find_disc_match(
    s: Seq<char>,
    i: int,
    kind: DiscPatternKind,
    w: Seq<char>,
    allow_of: bool,
) -> Option<(int, int, int, int)>
    decreases s.len() - i,
{
    if 0 <= i && i < s.len() {
        match disc_match_at(s, i, kind, w, allow_of) {
            Some(m) => Some((i, m.0, m.1, m.2)),
            None => find_disc_match(s, i + 1, kind, w, allow_of),
        }
    } else {
        None
    }
}

pub fn find_disc_match_exec(
    v: &Vec<char>,
    i: usize,
    kind: &DiscPatternKind,
    w: &Vec<char>,
    allow_of: bool,
) -> (r: Option<(usize, usize, usize, usize)>)
    requires
        i <= v.len(),
    ensures
        match r {
            Some(m) => find_disc_match(v@, i as int, *kind, w@, allow_of) == Some(
                (m.0 as int, m.1 as int, m.2 as int, m.3 as int),
            ) && 1 <= m.1 && m.0 + m.1 <= v.len() && m.2 < m.3 && m.3 <= v.len() && (forall|j: int|
                m.2 <= j < m.3 ==> spec_is_digit(v@[j])),
            None => find_disc_match(v@, i as int, *kind, w@, allow_of) is None,
        },
    decreases v.len() - i,
{
    if i < v.len() {
        match disc_match_at_exec(v, i, kind, w, allow_of) {
            Some(m) => Some((i, m.0, m.1, m.2)),
            None => find_disc_match_exec(v, i + 1, kind, w, allow_of),
        }
    } else {
        None
    }
}

/// `s` from position `i` on, with every match of the given disc pattern
/// removed.
pub open spec fn strip_disc_from(
    s: Seq<char>,
    i: int,
    kind: DiscPatternKind,
    w: Seq<char>,
    allow_of: bool,
) -> Seq<char>
    decreases s.len() - i,
{
    if 0 <= i && i < s.len() {
        match disc_match_at(s, i, kind, w, allow_of) {
            Some(m) => {
                let ni = i + (if m.0 < 1 {
                    1int
                } else {
                    m.0
                });
                strip_disc_from(
                    s,
                    if ni > s.len() {
                        s.len() as int
                    } else {
                        ni
                    },
                    kind,
                    w,
                    allow_of,
                )
            },
            None => seq![s[i]] + strip_disc_from(s, i + 1, kind, w, allow_of),
        }
    } else {
        Seq::empty()
    }
}

pub fn strip_disc_exec(
    s: &str,
    v: &Vec<char>,
    i: usize,
    kind: &DiscPatternKind,
    w: &Vec<char>,
    allow_of: bool,
) -> (r: String)
    requires
        v@ == s@,
        i <= v.len(),
    ensures
        r@ == strip_disc_from(s@, i as int, *kind, w@, allow_of),
    decreases v.len() - i,
{
    if i < v.len() {
        match disc_match_at_exec(v, i, kind, w, allow_of) {
            Some(m) => strip_disc_exec(s, v, i + m.0, kind, w, allow_of),
            None => {
                let piece = s.substring_char(i, i + 1);
                let rest = strip_disc_exec(s, v, i + 1, kind, w, allow_of);
                let mut out = piece.to_owned();
                out.append(rest.as_str());
                proof {
                    assert(s@.subrange(i as int, i + 1) =~= seq![s@[i as int]]);
                }
                out
            },
        }
    } else {
        String::new()
    }
}

// ===================== trimming and whitespace collapse =====================

/// Index just past the last non-whitespace character of `s.take(i)`.
pub open spec fn trim_end_from(s: Seq<char>, i: int) -> int
    decreases i,
{
    if 0 < i && i <= s.len() && spec_is_space(s[i - 1]) {
        trim_end_from(s, i - 1)
    } else {
        i
    }
}

pub proof fn lemma_trim_end_bounds(s: Seq<char>, i: int)
    requires
        0 <= i <= s.len(),
    ensures
        0 <= trim_end_from(s, i) <= i,
    decreases i,
{
    if 0 < i && spec_is_space(s[i - 1]) {
        lemma_trim_end_bounds(s, i - 1);
    }
}

fn trim_end_exec(v: &Vec<char>, i: usize) -> (r: usize)
    requires
        i <= v.len(),
    ensures
        r as int == trim_end_from(v@, i as int),
        r <= i,
    decreases i,
{
    if 0 < i && is_space_char(v[i - 1]) {
        trim_end_exec(v, i - 1)
    } else {
        i
    }
}

/// `s` with leading and trailing whitespace removed.
pub open spec fn spec_trim(s: Seq<char>) -> Seq<char> {
    let a = skip_spaces(s, 0);
    let b = trim_end_from(s, s.len() as int);
    if a <= b {
        s.subrange(a, b)
    } else {
        Seq::empty()
    }
}

pub fn trim_exec(s: &str, v: &Vec<char>) -> (r: String)
    requires
        v@ == s@,
    ensures
        r@ == spec_trim(s@),
{
    proof {
        lemma_skip_spaces_bounds(v@, 0);
        lemma_trim_end_bounds(v@, v@.len() as int);
    }
    let a = skip_spaces_at(v, 0);
    let b = trim_end_exec(v, v.len());
    if a <= b {
        s.substring_char(a, b).to_owned()
    } else {
        String::new()
    }
}

/// `s` from position `i` on, with whitespace runs collapsed: the words of the
/// remainder joined by single spaces. `first` is false once a word has
/// already been emitted, so a separating space is owed.
pub open spec fn collapse_from(s: Seq<char>, i: int, first: bool) -> Seq<char>
    decreases s.len() - i,
{
    if 0 <= i && i < s.len() {
        if spec_is_space(s[i]) {
            collapse_from(s, i + 1, first)
        } else {
            let e0 = skip_non_spaces(s, i + 1);
            let e = if e0 < i + 1 {
                i + 1
            } else if e0 > s.len() {
                s.len() as int
            } else {
                e0
            };
            (if first {
                Seq::<char>::empty()
            } else {
                seq![' ']
            }) + s.subrange(i, e) + collapse_from(s, e, false)
        }
    } else {
        Seq::empty()
    }
}

pub open spec fn spec_collapse_ws(s: Seq<char>) -> Seq<char> {
    collapse_from(s, 0, true)
}

pub fn collapse_ws_exec(s: &str, v: &Vec<char>, i: usize, first: bool) -> (r: String)
    requires
        v@ == s@,
        i <= v.len(),
    ensures
        r@ == collapse_from(s@, i as int, first),
    decreases v.len() - i,
{
    if i < v.len() {
        if is_space_char(v[i]) {
            collapse_ws_exec(s, v, i + 1, first)
        } else {
            proof {
                lemma_skip_non_spaces_bounds(v@, i + 1);
            }
            let e = skip_non_spaces_at(v, i + 1);
            let mut out: String = if first {
                String::new()
            } else {
                proof {
                    reveal_strlit(" ");
                }
                let sp = " ".to_owned();
                proof {
                    assert(sp@ =~= seq![' ']);
                }
                sp
            };
            out.append(s.substring_char(i, e));
            let rest = collapse_ws_exec(s, v, e, false);
            let out2 = out.concat(rest.as_str());
            out2
        }
    } else {
        String::new()
    }
}

} // verus!

//! Path platform hinter: infers a platform identifier from a filesystem path
//! by matching keywords against the path's segments. Used only to break ties
//! when an extension maps to several platforms; the table order decides, the
//! first matching entry wins.

use vstd::prelude::*;

use crate::chars::chars_of;
use crate::chars::word_at;
use crate::chars::word_at_exec;
use crate::paths::is_sep_char;
use crate::paths::spec_is_sep;

verus! {

/// First index at or after `i` holding a path separator.
pub open spec fn skip_to_sep(s: Seq<char>, i: int) -> int
    decreases s.len() - i,
{
    if 0 <= i && i < s.len() && !spec_is_sep(s[i]) {
        skip_to_sep(s, i + 1)
    } else {
        i
    }
}

fn skip_to_sep_at(v: &Vec<char>, i: usize) -> (r: usize)
    requires
        i <= v.len(),
    ensures
        r as int == skip_to_sep(v@, i as int),
        i <= r <= v.len(),
    decreases v.len() - i,
{
    if i < v.len() && !is_sep_char(v[i]) {
        skip_to_sep_at(v, i + 1)
    } else {
        i
    }
}

/// The lowercase word `w` occurs somewhere within `s[i..b]`, compared with
/// the single-character case folding of `spec_lower_char`.
pub open spec fn find_word_in(s: Seq<char>, i: int, b: int, w: Seq<char>) -> bool
    decreases b - i,
{
    if 0 <= i && i + w.len() <= b && b <= s.len() {
        word_at(s, i, w) || find_word_in(s, i + 1, b, w)
    } else {
        false
    }
}

fn find_word_in_exec(v: &Vec<char>, i: usize, b: usize, w: &Vec<char>) -> (r: bool)
    requires
        i <= b <= v.len(),
    ensures
        r == find_word_in(v@, i as int, b as int, w@),
    decreases b - i,
{
    if b - i >= w.len() {
        if word_at_exec(v, i, w) {
            true
        } else {
            find_word_in_exec(v, i + 1, b, w)
        }
    } else {
        false
    }
}

/// The match rules of one keyword against one path segment `s[a..b]`, any of
/// which qualifies: the segment equals the keyword; it contains the keyword
/// followed or preceded by a space; it starts with the keyword followed by an
/// underscore; it ends with an underscore followed by the keyword.
pub open spec fn seg_matches(s: Seq<char>, a: int, b: int, w: Seq<char>) -> bool {
    ||| (b - a == w.len() && word_at(s, a, w))
    ||| find_word_in(s, a, b, w + seq![' '])
    ||| find_word_in(s, a, b, seq![' '] + w)
    ||| (a + w.len() + 1 <= b && word_at(s, a, w + seq!['_']))
    ||| (a + w.len() + 1 <= b && word_at(s, b - w.len() - 1, seq!['_'] + w))
}

fn seg_matches_exec(
    v: &Vec<char>,
    a: usize,
    b: usize,
    w: &Vec<char>,
    w_sp: &Vec<char>,
    sp_w: &Vec<char>,
    w_us: &Vec<char>,
    us_w: &Vec<char>,
) -> (r: bool)
    requires
        a <= b <= v.len(),
        w_sp@ == w@ + seq![' '],
        sp_w@ == seq![' '] + w@,
        w_us@ == w@ + seq!['_'],
        us_w@ == seq!['_'] + w@,
    ensures
        r == seg_matches(v@, a as int, b as int, w@),
{
    if b - a == w.len() && word_at_exec(v, a, w) {
        return true;
    }
    if find_word_in_exec(v, a, b, w_sp) {
        return true;
    }
    if find_word_in_exec(v, a, b, sp_w) {
        return true;
    }
    if b - a > w.len() && word_at_exec(v, a, w_us) {
        return true;
    }
    if b - a > w.len() && word_at_exec(v, b - w.len() - 1, us_w) {
        return true;
    }
    false
}

/// Some segment of the path, taken from position `i` on, matches the keyword.
pub open spec fn path_has_kw(p: Seq<char>, i: int, w: Seq<char>) -> bool
    decreases p.len() - i,
{
    if 0 <= i && i <= p.len() {
        let e0 = skip_to_sep(p, i);
        let e = if e0 < i {
            i
        } else if e0 > p.len() {
            p.len() as int
        } else {
            e0
        };
        seg_matches(p, i, e, w) || (if e < p.len() {
            path_has_kw(p, e + 1, w)
        } else {
            false
        })
    } else {
        false
    }
}

fn path_has_kw_exec(
    v: &Vec<char>,
    i: usize,
    w: &Vec<char>,
    w_sp: &Vec<char>,
    sp_w: &Vec<char>,
    w_us: &Vec<char>,
    us_w: &Vec<char>,
) -> (r: bool)
    requires
        i <= v.len(),
        w_sp@ == w@ + seq![' '],
        sp_w@ == seq![' '] + w@,
        w_us@ == w@ + seq!['_'],
        us_w@ == seq!['_'] + w@,
    ensures
        r == path_has_kw(v@, i as int, w@),
    decreases v.len() - i,
{
    let e = skip_to_sep_at(v, i);
    if seg_matches_exec(v, i, e, w, w_sp, sp_w, w_us, us_w) {
        true
    } else if e < v.len() {
        path_has_kw_exec(v, e + 1, w, w_sp, sp_w, w_us, us_w)
    } else {
        false
    }
}

/// The padded forms of one keyword that the segment rules test for.
struct PaddedKeyword {
    w: Vec<char>,
    w_sp: Vec<char>,
    sp_w: Vec<char>,
    w_us: Vec<char>,
    us_w: Vec<char>,
}

fn pad_keyword(kw: &str) -> (r: PaddedKeyword)
    ensures
        r.w@ == kw@,
        r.w_sp@ == kw@ + seq![' '],
        r.sp_w@ == seq![' '] + kw@,
        r.w_us@ == kw@ + seq!['_'],
        r.us_w@ == seq!['_'] + kw@,
{
    let w = chars_of(kw);
    let mut w_sp = w.clone();
    w_sp.push(' ');
    let mut sp_w: Vec<char> = Vec::new();
    sp_w.push(' ');
    let mut k: usize = 0;
    while k < w.len()
        invariant
            k <= w.len(),
            w@ == kw@,
            sp_w@ == seq![' '] + w@.take(k as int),
        decreases w.len() - k,
    {
        sp_w.push(w[k]);
        proof {
            assert(seq![' '] + w@.take(k + 1) =~= (seq![' '] + w@.take(k as int)).push(
                w@[k as int],
            ));
        }
        k += 1;
    }
    let mut w_us = w.clone();
    w_us.push('_');
    let mut us_w: Vec<char> = Vec::new();
    us_w.push('_');
    let mut k2: usize = 0;
    while k2 < w.len()
        invariant
            k2 <= w.len(),
            w@ == kw@,
            us_w@ == seq!['_'] + w@.take(k2 as int),
        decreases w.len() - k2,
    {
        us_w.push(w[k2]);
        proof {
            assert(seq!['_'] + w@.take(k2 + 1) =~= (seq!['_'] + w@.take(k2 as int)).push(
                w@[k2 as int],
            ));
        }
        k2 += 1;
    }
    proof {
        assert(w@ + seq![' '] =~= w@.push(' '));
        assert(w@ + seq!['_'] =~= w@.push('_'));
        assert(w@.take(w@.len() as int) =~= w@);
    }
    PaddedKeyword { w, w_sp, sp_w, w_us, us_w }
}

/// The view of a hint table: each entry a platform identifier with its
/// keyword list.
pub open spec fn hints_view(h: Seq<(String, Vec<String>)>) -> Seq<(Seq<char>, Seq<Seq<char>>)> {
    h.map_values(|e: (String, Vec<String>)| (e.0@, e.1@.map_values(|k: String| k@)))
}

/// Any keyword of `kws`, from position `j` on, matches some segment of `p`.
pub open spec fn any_kw_matches(p: Seq<char>, kws: Seq<Seq<char>>, j: int) -> bool
    decreases kws.len() - j,
{
    if 0 <= j && j < kws.len() {
        path_has_kw(p, 0, kws[j]) || any_kw_matches(p, kws, j + 1)
    } else {
        false
    }
}

/// The platform named by the first hint entry, from position `i` on, one of
/// whose keywords matches a segment of `p`.
pub open spec fn spec_detect_platform(
    p: Seq<char>,
    hints: Seq<(Seq<char>, Seq<Seq<char>>)>,
    i: int,
) -> Option<Seq<char>>
    decreases hints.len() - i,
{
    if 0 <= i && i < hints.len() {
        if any_kw_matches(p, hints[i].1, 0) {
            Some(hints[i].0)
        } else {
            spec_detect_platform(p, hints, i + 1)
        }
    } else {
        None
    }
}

/// Infers a platform identifier from a path: the hint entries are consulted
/// in table order and the first entry with a keyword matching one of the
/// path's segments wins; `None` when no keyword matches. Path characters are
/// folded one at a time as `spec_lower_char` does; multi-character Unicode
/// lowercase expansions are not folded.
pub fn detect_platform_from_path(path: &str, hints: &Vec<(String, Vec<String>)>) -> (r: Option<
    String,
>)
    ensures
        match r {
            Some(p) => spec_detect_platform(path@, hints_view(hints@), 0) == Some(p@),
            None => spec_detect_platform(path@, hints_view(hints@), 0) is None,
        },
{
    let v = chars_of(path);
    let mut i: usize = 0;
    while i < hints.len()
        invariant
            i <= hints@.len(),
            v@ == path@,
            spec_detect_platform(path@, hints_view(hints@), 0) == spec_detect_platform(
                path@,
                hints_view(hints@),
                i as int,
            ),
        decreases hints@.len() - i,
    {
        let kws = &hints[i].1;
        let mut j: usize = 0;
        let mut matched = false;
        while j < kws.len()
            invariant
                j <= kws@.len(),
                v@ == path@,
                kws == &hints@[i as int].1,
                i < hints@.len(),
                !matched ==> any_kw_matches(path@, hints_view(hints@)[i as int].1, 0)
                    == any_kw_matches(path@, hints_view(hints@)[i as int].1, j as int),
                matched ==> any_kw_matches(path@, hints_view(hints@)[i as int].1, 0),
            decreases kws@.len() - j,
        {
            if !matched {
                let pk = pad_keyword(kws[j].as_str());
                if path_has_kw_exec(&v, 0, &pk.w, &pk.w_sp, &pk.sp_w, &pk.w_us, &pk.us_w) {
                    matched = true;
                    proof {
                        assert(hints_view(hints@)[i as int].1[j as int] == kws@[j as int]@);
                    }
                }
            }
            j += 1;
        }
        if matched {
            proof {
                assert(spec_detect_platform(path@, hints_view(hints@), i as int) == Some(
                    hints_view(hints@)[i as int].0,
                ));
            }
            return Some(hints[i].0.clone());
        }
        proof {
            assert(!any_kw_matches(path@, hints_view(hints@)[i as int].1, 0));
            assert(spec_detect_platform(path@, hints_view(hints@), i as int)
                == spec_detect_platform(path@, hints_view(hints@), i + 1));
        }
        i += 1;
    }
    None
}

// ===================== the fixed hint table =====================

/// The fixed, ordered hint table: platform identifier to lowercase keywords.
/// Order is significant — the first matching entry wins — and the table is
/// preserved verbatim for reproducible classification.
pub open spec fn spec_default_hints() -> Seq<(Seq<char>, Seq<Seq<char>>)> {
    seq![
        ("ps2"@, seq!["ps2"@, "playstation 2"@, "playstation2"@, "sony ps2"@]),
        ("ps1"@, seq!["ps1"@, "psx"@, "playstation 1"@, "playstation1"@, "psone"@]),
        ("psp"@, seq!["psp"@, "playstation portable"@]),
        ("ps3"@, seq!["ps3"@, "playstation 3"@, "playstation3"@]),
        ("vita"@, seq!["vita"@, "psvita"@, "ps vita"@]),
        ("gamecube"@, seq!["gamecube"@, "gcn"@, "ngc"@, "nintendo gamecube"@]),
        ("wii"@, seq!["wii"@, "nintendo wii"@]),
        ("switch"@, seq!["switch"@, "nintendo switch"@, "nx"@]),
        ("n64"@, seq!["n64"@, "nintendo 64"@, "nintendo64"@]),
        ("snes"@, seq!["snes"@, "super nintendo"@, "super nes"@, "sfc"@]),
        ("nes"@, seq!["nes"@, "nintendo entertainment"@, "famicom"@]),
        ("gba"@, seq!["gba"@, "gameboy advance"@, "game boy advance"@]),
        ("gbc"@, seq!["gbc"@, "gameboy color"@, "game boy color"@]),
        ("gb"@, seq!["gameboy"@, "game boy"@]),
        ("nds"@, seq!["nds"@, "nintendo ds"@, "ds"@]),
        ("3ds"@, seq!["3ds"@, "nintendo 3ds"@]),
        ("genesis"@, seq!["genesis"@, "mega drive"@, "megadrive"@, "sega genesis"@]),
        ("saturn"@, seq!["saturn"@, "sega saturn"@]),
        ("dreamcast"@, seq!["dreamcast"@, "sega dreamcast"@]),
        ("xbox"@, seq!["xbox"@, "original xbox"@]),
        ("xbox360"@, seq!["xbox 360"@, "xbox360"@, "x360"@]),
        ("arcade"@, seq!["arcade"@, "mame"@, "fba"@, "fbneo"@]),
    ]
}

fn kw2(a: &str, b: &str) -> (r: Vec<String>)
    ensures
        r@.map_values(|k: String| k@) == seq![a@, b@],
{
    let mut v: Vec<String> = Vec::new();
    v.push(a.to_owned());
    v.push(b.to_owned());
    proof {
        assert(v@.map_values(|k: String| k@) =~= seq![a@, b@]);
    }
    v
}

fn kw3(a: &str, b: &str, c: &str) -> (r: Vec<String>)
    ensures
        r@.map_values(|k: String| k@) == seq![a@, b@, c@],
{
    let mut v: Vec<String> = Vec::new();
    v.push(a.to_owned());
    v.push(b.to_owned());
    v.push(c.to_owned());
    proof {
        assert(v@.map_values(|k: String| k@) =~= seq![a@, b@, c@]);
    }
    v
}

fn kw4(a: &str, b: &str, c: &str, d: &str) -> (r: Vec<String>)
    ensures
        r@.map_values(|k: String| k@) == seq![a@, b@, c@, d@],
{
    let mut v: Vec<String> = Vec::new();
    v.push(a.to_owned());
    v.push(b.to_owned());
    v.push(c.to_owned());
    v.push(d.to_owned());
    proof {
        assert(v@.map_values(|k: String| k@) =~= seq![a@, b@, c@, d@]);
    }
    v
}

fn kw5(a: &str, b: &str, c: &str, d: &str, e: &str) -> (r: Vec<String>)
    ensures
        r@.map_values(|k: String| k@) == seq![a@, b@, c@, d@, e@],
{
    let mut v: Vec<String> = Vec::new();
    v.push(a.to_owned());
    v.push(b.to_owned());
    v.push(c.to_owned());
    v.push(d.to_owned());
    v.push(e.to_owned());
    proof {
        assert(v@.map_values(|k: String| k@) =~= seq![a@, b@, c@, d@, e@]);
    }
    v
}

/// Builds the fixed hint table, entry for entry as `spec_default_hints`
/// states it.
pub fn default_platform_hints() -> (r: Vec<(String, Vec<String>)>)
    ensures
        hints_view(r@) == spec_default_hints(),
{
    let mut r: Vec<(String, Vec<String>)> = Vec::new();
    r.push(("ps2".to_owned(), kw4("ps2", "playstation 2", "playstation2", "sony ps2")));
    r.push(("ps1".to_owned(), kw5("ps1", "psx", "playstation 1", "playstation1", "psone")));
    r.push(("psp".to_owned(), kw2("psp", "playstation portable")));
    r.push(("ps3".to_owned(), kw3("ps3", "playstation 3", "playstation3")));
    r.push(("vita".to_owned(), kw3("vita", "psvita", "ps vita")));
    r.push(("gamecube".to_owned(), kw4("gamecube", "gcn", "ngc", "nintendo gamecube")));
    r.push(("wii".to_owned(), kw2("wii", "nintendo wii")));
    r.push(("switch".to_owned(), kw3("switch", "nintendo switch", "nx")));
    r.push(("n64".to_owned(), kw3("n64", "nintendo 64", "nintendo64")));
    r.push(("snes".to_owned(), kw4("snes", "super nintendo", "super nes", "sfc")));
    r.push(("nes".to_owned(), kw3("nes", "nintendo entertainment", "famicom")));
    r.push(("gba".to_owned(), kw3("gba", "gameboy advance", "game boy advance")));
    r.push(("gbc".to_owned(), kw3("gbc", "gameboy color", "game boy color")));
    r.push(("gb".to_owned(), kw2("gameboy", "game boy")));
    r.push(("nds".to_owned(), kw3("nds", "nintendo ds", "ds")));
    r.push(("3ds".to_owned(), kw2("3ds", "nintendo 3ds")));
    r.push(("genesis".to_owned(), kw4("genesis", "mega drive", "megadrive", "sega genesis")));
    r.push(("saturn".to_owned(), kw2("saturn", "sega saturn")));
    r.push(("dreamcast".to_owned(), kw2("dreamcast", "sega dreamcast")));
    r.push(("xbox".to_owned(), kw2("xbox", "original xbox")));
    r.push(("xbox360".to_owned(), kw3("xbox 360", "xbox360", "x360")));
    r.push(("arcade".to_owned(), kw4("arcade", "mame", "fba", "fbneo")));
    proof {
        assert(hints_view(r@) =~~= spec_default_hints());
    }
    r
}

} // verus!

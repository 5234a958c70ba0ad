//! Character classes and low-level scanning primitives shared by the title,
//! disc-pattern and path-hint matchers. Matching folds characters one at a
//! time: uppercase ASCII letters fold to lowercase, as does the one other
//! character whose single-character Unicode lowercase mapping lands in ASCII
//! (the Kelvin sign). Characters whose Unicode lowercasing expands to several
//! characters are not folded; they stand for themselves.

use vstd::prelude::*;

verus! {

/// The whitespace characters recognized by the matchers: the Unicode
/// White_Space set, as Rust's `char::is_whitespace` defines it.
pub open spec fn spec_is_space(c: char) -> bool {
    ||| c == ' '
    ||| c == '\t'
    ||| c == '\n'
    ||| c == '\r'
    ||| c == '\u{0B}'
    ||| c == '\u{0C}'
    ||| c == '\u{85}'
    ||| c == '\u{A0}'
    ||| c == '\u{1680}'
    ||| ('\u{2000}' <= c && c <= '\u{200A}')
    ||| c == '\u{2028}'
    ||| c == '\u{2029}'
    ||| c == '\u{202F}'
    ||| c == '\u{205F}'
    ||| c == '\u{3000}'
}

pub fn is_space_char(c: char) -> (r: bool)
    ensures
        r == spec_is_space(c),
{
    c == ' ' || c == '\t' || c == '\n' || c == '\r' || c == '\u{0B}' || c == '\u{0C}'
        || c == '\u{85}' || c == '\u{A0}' || c == '\u{1680}' || ('\u{2000}' <= c && c
        <= '\u{200A}') || c == '\u{2028}' || c == '\u{2029}' || c == '\u{202F}' || c == '\u{205F}'
        || c == '\u{3000}'
}

pub open spec fn spec_is_digit(c: char) -> bool {
    '0' <= c && c <= '9'
}

pub fn is_digit_char(c: char) -> (r: bool)
    ensures
        r == spec_is_digit(c),
{
    '0' <= c && c <= '9'
}

/// Single-character case folding: uppercase ASCII letters map to lowercase,
/// the Kelvin sign maps to `k` — the only character outside ASCII whose
/// single-character Unicode lowercase mapping is an ASCII letter — and every
/// other character is unchanged.
pub open spec fn spec_lower_char(c: char) -> char {
    if 'A' <= c && c <= 'Z' {
        ((c as u32) + 32) as char
    } else if c == '\u{212A}' {
        'k'
    } else {
        c
    }
}

pub fn lower_char(c: char) -> (r: char)
    ensures
        r == spec_lower_char(c),
{
    if 'A' <= c && c <= 'Z' {
        (((c as u32) as u8) + 32) as char
    } else if c == '\u{212A}' {
        'k'
    } else {
        c
    }
}

/// The characters of a string slice as a vector, in order.
pub fn chars_of(s: &str) -> (v: Vec<char>)
    ensures
        v@ == s@,
{
    let n = s.unicode_len();
    let mut v: Vec<char> = Vec::new();
    let mut i: usize = 0;
    while i < n
        invariant
            i <= n,
            n == s@.len(),
            v@ == s@.take(i as int),
        decreases n - i,
    {
        v.push(s.get_char(i));
        proof {
            assert(s@.take(i + 1) =~= s@.take(i as int).push(s@[i as int]));
        }
        i += 1;
    }
    proof {
        assert(v@ =~= s@);
    }
    v
}

/// Equality of two string slices, decided character by character.
pub fn str_eq(a: &str, b: &str) -> (r: bool)
    ensures
        r == (a@ == b@),
{
    let na = a.unicode_len();
    let nb = b.unicode_len();
    if na != nb {
        return false;
    }
    let mut i: usize = 0;
    while i < na
        invariant
            i <= na,
            na == a@.len(),
            na == b@.len(),
            forall|j: int| 0 <= j < i ==> a@[j] == b@[j],
        decreases na - i,
    {
        if a.get_char(i) != b.get_char(i) {
            return false;
        }
        i += 1;
    }
    proof {
        assert(a@ =~= b@);
    }
    true
}

/// First index at or after `i` whose character is not whitespace.
pub open spec fn skip_spaces(s: Seq<char>, i: int) -> int
    decreases s.len() - i,
{
    if 0 <= i && i < s.len() && spec_is_space(s[i]) {
        skip_spaces(s, i + 1)
    } else {
        i
    }
}

pub proof fn lemma_skip_spaces_bounds(s: Seq<char>, i: int)
    requires
        0 <= i <= s.len(),
    ensures
        i <= skip_spaces(s, i) <= s.len(),
        skip_spaces(s, i) < s.len() ==> !spec_is_space(s[skip_spaces(s, i)]),
    decreases s.len() - i,
{
    if i < s.len() && spec_is_space(s[i]) {
        lemma_skip_spaces_bounds(s, i + 1);
    }
}

pub fn skip_spaces_at(v: &Vec<char>, i: usize) -> (r: usize)
    requires
        i <= v.len(),
    ensures
        r as int == skip_spaces(v@, i as int),
        i <= r <= v.len(),
    decreases v.len() - i,
{
    if i < v.len() && is_space_char(v[i]) {
        skip_spaces_at(v, i + 1)
    } else {
        i
    }
}

/// First index at or after `i` whose character is not an ASCII digit.
pub open spec fn skip_digits(s: Seq<char>, i: int) -> int
    decreases s.len() - i,
{
    if 0 <= i && i < s.len() && spec_is_digit(s[i]) {
        skip_digits(s, i + 1)
    } else {
        i
    }
}

pub proof fn lemma_skip_digits_bounds(s: Seq<char>, i: int)
    requires
        0 <= i <= s.len(),
    ensures
        i <= skip_digits(s, i) <= s.len(),
        forall|j: int| i <= j < skip_digits(s, i) ==> spec_is_digit(s[j]),
    decreases s.len() - i,
{
    if i < s.len() && spec_is_digit(s[i]) {
        lemma_skip_digits_bounds(s, i + 1);
    }
}

pub fn skip_digits_at(v: &Vec<char>, i: usize) -> (r: usize)
    requires
        i <= v.len(),
    ensures
        r as int == skip_digits(v@, i as int),
        i <= r <= v.len(),
    decreases v.len() - i,
{
    if i < v.len() && is_digit_char(v[i]) {
        skip_digits_at(v, i + 1)
    } else {
        i
    }
}

/// First index at or after `i` whose character is whitespace.
pub open spec fn skip_non_spaces(s: Seq<char>, i: int) -> int
    decreases s.len() - i,
{
    if 0 <= i && i < s.len() && !spec_is_space(s[i]) {
        skip_non_spaces(s, i + 1)
    } else {
        i
    }
}

pub proof fn lemma_skip_non_spaces_bounds(s: Seq<char>, i: int)
    requires
        0 <= i <= s.len(),
    ensures
        i <= skip_non_spaces(s, i) <= s.len(),
    decreases s.len() - i,
{
    if i < s.len() && !spec_is_space(s[i]) {
        lemma_skip_non_spaces_bounds(s, i + 1);
    }
}

pub fn skip_non_spaces_at(v: &Vec<char>, i: usize) -> (r: usize)
    requires
        i <= v.len(),
    ensures
        r as int == skip_non_spaces(v@, i as int),
        i <= r <= v.len(),
    decreases v.len() - i,
{
    if i < v.len() && !is_space_char(v[i]) {
        skip_non_spaces_at(v, i + 1)
    } else {
        i
    }
}

/// First index at or after `i` holding exactly the character `c`.
pub open spec fn skip_to_char(s: Seq<char>, i: int, c: char) -> int
    decreases s.len() - i,
{
    if 0 <= i && i < s.len() && s[i] != c {
        skip_to_char(s, i + 1, c)
    } else {
        i
    }
}

pub proof fn lemma_skip_to_char_bounds(s: Seq<char>, i: int, c: char)
    requires
        0 <= i <= s.len(),
    ensures
        i <= skip_to_char(s, i, c) <= s.len(),
        skip_to_char(s, i, c) < s.len() ==> s[skip_to_char(s, i, c)] == c,
    decreases s.len() - i,
{
    if i < s.len() && s[i] != c {
        lemma_skip_to_char_bounds(s, i + 1, c);
    }
}

pub fn skip_to_char_at(v: &Vec<char>, i: usize, c: char) -> (r: usize)
    requires
        i <= v.len(),
    ensures
        r as int == skip_to_char(v@, i as int, c),
        i <= r <= v.len(),
    decreases v.len() - i,
{
    if i < v.len() && v[i] != c {
        skip_to_char_at(v, i + 1, c)
    } else {
        i
    }
}

/// The lowercase word `w` occurs at index `i` of `s`, compared with the
/// single-character case folding of `spec_lower_char` applied to `s`.
pub open spec fn word_at(s: Seq<char>, i: int, w: Seq<char>) -> bool {
    &&& 0 <= i
    &&& i + w.len() <= s.len()
    &&& forall|k: int| 0 <= k < w.len() ==> spec_lower_char(s[i + k]) == w[k]
}

pub fn word_at_exec(v: &Vec<char>, i: usize, w: &Vec<char>) -> (r: bool)
    ensures
        r == word_at(v@, i as int, w@),
{
    if i > v.len() || v.len() - i < w.len() {
        return false;
    }
    let mut k: usize = 0;
    while k < w.len()
        invariant
            k <= w.len(),
            i + w.len() <= v.len(),
            forall|j: int| 0 <= j < k ==> spec_lower_char(v@[i + j]) == w@[j],
        decreases w.len() - k,
    {
        if lower_char(v[i + k]) != w[k] {
            return false;
        }
        k += 1;
    }
    true
}

/// Numeric value of the ASCII digit run `s[a..b]`, most significant first.
pub open spec fn digits_val(s: Seq<char>, a: int, b: int) -> int
    decreases b - a,
{
    if a < b {
        digits_val(s, a, b - 1) * 10 + (s[b - 1] as int - 48)
    } else {
        0
    }
}

pub proof fn lemma_digits_val_nonneg(s: Seq<char>, a: int, b: int)
    requires
        forall|j: int| a <= j < b ==> spec_is_digit(s[j]),
    ensures
        digits_val(s, a, b) >= 0,
    decreases b - a,
{
    if a < b {
        lemma_digits_val_nonneg(s, a, b - 1);
    }
}

/// Extending a digit run to the right never shrinks its value.
pub proof fn lemma_digits_val_mono(s: Seq<char>, a: int, b: int, c: int)
    requires
        b <= c,
        forall|j: int| a <= j < c ==> spec_is_digit(s[j]),
    ensures
        digits_val(s, a, b) <= digits_val(s, a, c),
    decreases c - b,
{
    if b < c {
        lemma_digits_val_mono(s, a, b, c - 1);
        lemma_digits_val_nonneg(s, a, c - 1);
    }
}

/// Parses the digit run `v[a..b]` as a `u32`; `None` means the value
/// overflows `u32`.
pub fn parse_u32(v: &Vec<char>, a: usize, b: usize) -> (r: Option<u32>)
    requires
        a <= b <= v.len(),
        forall|j: int| a <= j < b ==> spec_is_digit(v@[j]),
    ensures
        match r {
            Some(x) => x as int == digits_val(v@, a as int, b as int),
            None => digits_val(v@, a as int, b as int) > u32::MAX,
        },
{
    let mut val: u32 = 0;
    let mut i: usize = a;
    while i < b
        invariant
            a <= i <= b <= v.len(),
            forall|j: int| a <= j < b ==> spec_is_digit(v@[j]),
            val as int == digits_val(v@, a as int, i as int),
        decreases b - i,
    {
        let c = v[i];
        let d: u32 = (c as u32) - 48;
        if val > 429496729 || (val == 429496729 && d > 5) {
            proof {
                lemma_digits_val_mono(v@, a as int, i + 1, b as int);
            }
            return None;
        }
        val = val * 10 + d;
        i += 1;
    }
    Some(val)
}

} // verus!

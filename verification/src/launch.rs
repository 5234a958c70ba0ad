//! Building the command line that launches an emulator: the launch-argument
//! template has its `{rom}` and `{title}` placeholders substituted, and the
//! result is split into words the way a POSIX shell would, quoting respected.

use vstd::prelude::*;

use crate::discover::strings_view;

verus! {

/// `s` from position `i` on, with every occurrence of `pat` replaced by
/// `rep`, scanning left to right over non-overlapping occurrences.
pub open spec fn spec_replace(s: Seq<char>, pat: Seq<char>, rep: Seq<char>, i: int) -> Seq<char>
    decreases s.len() - i,
{
    if 0 <= i && i < s.len() {
        if pat.len() > 0 && i + pat.len() <= s.len() && s.subrange(i, i + pat.len()) == pat {
            rep + spec_replace(s, pat, rep, i + pat.len())
        } else {
            seq![s[i]] + spec_replace(s, pat, rep, i + 1)
        }
    } else {
        Seq::empty()
    }
}

fn occurs_at(v: &Vec<char>, i: usize, pat: &Vec<char>) -> (r: bool)
    requires
        i <= v.len(),
    ensures
        r == (i + pat@.len() <= v@.len() && v@.subrange(i as int, i + pat@.len()) == pat@),
{
    if v.len() - i < pat.len() {
        return false;
    }
    let mut k: usize = 0;
    while k < pat.len()
        invariant
            k <= pat.len(),
            i + pat.len() <= v.len(),
            forall|j: int| 0 <= j < k ==> v@[i + j] == pat@[j],
        decreases pat@.len() - k,
    {
        if v[i + k] != pat[k] {
            proof {
                assert(v@.subrange(i as int, i + pat@.len())[k as int] != pat@[k as int]);
            }
            return false;
        }
        k += 1;
    }
    proof {
        assert(v@.subrange(i as int, i + pat@.len()) =~= pat@);
    }
    true
}

fn replace_exec(s: &str, v: &Vec<char>, i: usize, pat: &Vec<char>, rep: &str) -> (r: String)
    requires
        v@ == s@,
        i <= v.len(),
        pat@.len() > 0,
    ensures
        r@ == spec_replace(s@, pat@, rep@, i as int),
    decreases v.len() - i,
{
    if i < v.len() {
        if occurs_at(v, i, pat) {
            let rest = replace_exec(s, v, i + pat.len(), pat, rep);
            let mut out = rep.to_owned();
            out.append(rest.as_str());
            out
        } else {
            let piece = s.substring_char(i, i + 1);
            let rest = replace_exec(s, v, i + 1, pat, rep);
            let mut out = piece.to_owned();
            out.append(rest.as_str());
            proof {
                assert(s@.subrange(i as int, i + 1) =~= seq![s@[i as int]]);
            }
            out
        }
    } else {
        String::new()
    }
}

/// The launch-argument template with `{rom}` replaced by the ROM path and
/// then `{title}` replaced by the game title.
pub open spec fn spec_args_template(template: Seq<char>, rom: Seq<char>, title: Seq<char>) -> Seq<
    char,
> {
    spec_replace(spec_replace(template, "{rom}"@, rom, 0), "{title}"@, title, 0)
}

/// What shell-style word splitting yields on a string: the words, or `None`
/// when the string is malformed (an unclosed quote).
pub uninterp spec fn shell_split_of(s: Seq<char>) -> Option<Seq<Seq<char>>>;

#[verifier::external_type_specification]
#[verifier::external_body]
pub struct ExParseError(shell_words::ParseError);

/// Relies on shell_words::split: POSIX-shell word splitting with quoting;
/// the result depends on the input characters alone, and an error means a
/// missing closing quote.
#[verifier::external_body]
fn shell_split(s: &str) -> (r: Result<Vec<String>, shell_words::ParseError>)
    ensures
        match r {
            Ok(v) => shell_split_of(s@) == Some(strings_view(v@)),
            Err(_) => shell_split_of(s@) is None,
        },
{
    shell_words::split(s)
}

fn pat_rom() -> (r: Vec<char>)
    ensures
        r@ == "{rom}"@,
{
    crate::chars::chars_of("{rom}")
}

fn pat_title() -> (r: Vec<char>)
    ensures
        r@ == "{title}"@,
{
    crate::chars::chars_of("{title}")
}

/// Builds the argument list for launching a game: substitutes the `{rom}`
/// and `{title}` placeholders of the emulator's launch-argument template and
/// splits the result as a shell would. `Err` exactly when the substituted
/// template is malformed, with a message that says so.
pub fn build_launch_args(template: &str, rom_path: &str, title: &str) -> (r: Result<
    Vec<String>,
    String,
>)
    ensures
        ({
            let t = spec_args_template(template@, rom_path@, title@);
            match r {
                Ok(v) => shell_split_of(t) == Some(strings_view(v@)),
                Err(e) => {
                    &&& shell_split_of(t) is None
                    &&& "Failed to parse launch arguments: "@.is_prefix_of(e@)
                },
            }
        }),
{
    let prom = pat_rom();
    proof {
        reveal_strlit("{rom}");
    }
    let v0 = crate::chars::chars_of(template);
    let t1 = replace_exec(template, &v0, 0, &prom, rom_path);
    let ptitle = pat_title();
    proof {
        reveal_strlit("{title}");
    }
    let v1 = crate::chars::chars_of(t1.as_str());
    let t2 = replace_exec(t1.as_str(), &v1, 0, &ptitle, title);
    match shell_split(t2.as_str()) {
        Ok(v) => Ok(v),
        Err(e) => {
            let mut msg = "Failed to parse launch arguments: ".to_owned();
            let es = e.to_string();
            msg.append(es.as_str());
            proof {
                assert("Failed to parse launch arguments: "@.is_prefix_of(msg@));
            }
            Err(msg)
        },
    }
}

/// The emulator that launches a game: the game's preferred emulator when one
/// is set, else the platform's default, else none.
pub fn choose_emulator_id(preferred: &Option<String>, platform_default: &Option<String>) -> (r:
    Option<String>)
    ensures
        match preferred {
            Some(p) => r == Some(*p),
            None => r == *platform_default,
        },
{
    match preferred {
        Some(p) => Some(p.clone()),
        None => match platform_default {
            Some(d) => Some(d.clone()),
            None => None,
        },
    }
}

} // verus!

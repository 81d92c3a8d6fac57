//! Slash-command parsing for the interactive prompt.
//!
//! A line is trimmed of surrounding whitespace; a line that does not start
//! with a slash is no command. Otherwise the first whitespace ends the
//! verb, the remainder — itself trimmed — is the argument. `/claim` takes
//! an optional claim text, with a lone `-` standing for an empty claim;
//! `/help`, `/quit` and `/exit` take none; any other verb is unknown.

use vstd::prelude::*;

use crate::text::{char_is_space, is_unicode_space, str_chars, string_from_chars};

verus! {

/// A parsed line of user input.
#[derive(Debug, Clone)]
pub enum Command {
    /// Set, show or clear the claim under investigation.
    Claim(Option<String>),
    /// Show the command summary.
    Help,
    /// Leave the program.
    Quit,
    /// Anything that is not a known command: the trimmed line itself.
    Unknown(String),
}

/// The first index at or past `i` holding a non-whitespace character, or
/// the length when none is left.
pub open spec fn spec_skip_space(s: Seq<char>, i: int) -> int
    decreases s.len() - i,
{
    if i < 0 || i >= s.len() {
        i
    } else if is_unicode_space(s[i]) {
        spec_skip_space(s, i + 1)
    } else {
        i
    }
}

/// The end of the text once trailing whitespace before `e` is dropped.
pub open spec fn spec_trim_end(s: Seq<char>, e: int) -> int
    decreases e,
{
    if e <= 0 || e > s.len() {
        0
    } else if is_unicode_space(s[e - 1]) {
        spec_trim_end(s, e - 1)
    } else {
        e
    }
}

/// `s` without leading and trailing whitespace.
pub open spec fn spec_trimmed(s: Seq<char>) -> Seq<char> {
    let a = spec_skip_space(s, 0);
    let b = spec_trim_end(s, s.len() as int);
    if a <= b {
        s.subrange(a, b)
    } else {
        Seq::empty()
    }
}

/// The first index at or past `i` holding a whitespace character, or the
/// length when none follows.
pub open spec fn spec_find_space(s: Seq<char>, i: int) -> int
    decreases s.len() - i,
{
    if i < 0 || i >= s.len() {
        i
    } else if is_unicode_space(s[i]) {
        i
    } else {
        spec_find_space(s, i + 1)
    }
}

/// Whether the trimmed line is a command at all: non-empty and slash-led.
pub open spec fn spec_is_cmd(t: Seq<char>) -> bool {
    t.len() > 0 && t[0] == '/'
}

/// The verb of a trimmed command line: everything before the first
/// whitespace.
pub open spec fn spec_verb(t: Seq<char>) -> Seq<char> {
    t.take(spec_find_space(t, 0))
}

/// The argument of a trimmed command line: what follows the first
/// whitespace, itself trimmed; empty when there is no argument.
pub open spec fn spec_arg(t: Seq<char>) -> Seq<char> {
    let fs = spec_find_space(t, 0);
    if fs < t.len() {
        spec_trimmed(t.subrange(fs + 1, t.len() as int))
    } else {
        Seq::empty()
    }
}

/// The index where the leading whitespace of `v` ends.
fn skip_space_index(v: &Vec<char>) -> (a: usize)
    ensures
        a == spec_skip_space(v@, 0),
        a <= v@.len(),
{
    let n = v.len();
    let mut i: usize = 0;
    while i < n
        invariant
            0 <= i <= n,
            n == v@.len(),
            spec_skip_space(v@, 0) == spec_skip_space(v@, i as int),
        decreases n - i,
    {
        if !char_is_space(v[i]) {
            return i;
        }
        i = i + 1;
    }
    i
}

/// The index where the text of `v` ends, trailing whitespace dropped.
fn trim_end_index(v: &Vec<char>) -> (b: usize)
    ensures
        b == spec_trim_end(v@, v@.len() as int),
        b <= v@.len(),
{
    let n = v.len();
    let mut b: usize = n;
    while b > 0
        invariant
            0 <= b <= n,
            n == v@.len(),
            spec_trim_end(v@, n as int) == spec_trim_end(v@, b as int),
        decreases b,
    {
        if !char_is_space(v[b - 1]) {
            return b;
        }
        b = b - 1;
    }
    b
}

/// The index of the first whitespace in `v`, or its length.
fn find_space_index(v: &Vec<char>) -> (k: usize)
    ensures
        k == spec_find_space(v@, 0),
        k <= v@.len(),
{
    let n = v.len();
    let mut i: usize = 0;
    while i < n
        invariant
            0 <= i <= n,
            n == v@.len(),
            spec_find_space(v@, 0) == spec_find_space(v@, i as int),
        decreases n - i,
    {
        if char_is_space(v[i]) {
            return i;
        }
        i = i + 1;
    }
    i
}

/// The characters of `v` from `a` up to `b`.
fn sub_chars(v: &Vec<char>, a: usize, b: usize) -> (r: Vec<char>)
    requires
        a <= b <= v@.len(),
    ensures
        r@ == v@.subrange(a as int, b as int),
{
    let mut r: Vec<char> = Vec::new();
    let mut i: usize = a;
    while i < b
        invariant
            a <= i <= b <= v@.len(),
            r@ == v@.subrange(a as int, i as int),
        decreases b - i,
    {
        r.push(v[i]);
        proof {
            assert(r@ =~= v@.subrange(a as int, i + 1));
        }
        i = i + 1;
    }
    r
}

/// Parse one line of user input.
///
/// The line is trimmed; a line that does not begin with `/` comes back as
/// [`Command::Unknown`] holding the trimmed text. The verb runs to the
/// first whitespace; its argument is the trimmed remainder. `/claim` with
/// no argument asks to show the claim, with `-` to clear it, and with any
/// other text to set it; `/help` and `/quit`/`/exit` are fixed; any other
/// verb is unknown, holding the whole trimmed line.
pub fn parse_command(input: &str) -> (r: Command)
    ensures
        !spec_is_cmd(spec_trimmed(input@)) ==> (r matches Command::Unknown(u) && u@ == spec_trimmed(
            input@,
        )),
        spec_is_cmd(spec_trimmed(input@)) && spec_verb(spec_trimmed(input@)) == "/claim"@
            && spec_arg(spec_trimmed(input@)).len() == 0 ==> (r matches Command::Claim(o) && o
            is None),
        spec_is_cmd(spec_trimmed(input@)) && spec_verb(spec_trimmed(input@)) == "/claim"@
            && spec_arg(spec_trimmed(input@)) == "-"@ ==> (r matches Command::Claim(o) && (o
            matches Some(x) && x@.len() == 0)),
        spec_is_cmd(spec_trimmed(input@)) && spec_verb(spec_trimmed(input@)) == "/claim"@
            && spec_arg(spec_trimmed(input@)).len() > 0 && spec_arg(spec_trimmed(input@)) != "-"@
            ==> (r matches Command::Claim(o) && (o matches Some(x) && x@ == spec_arg(spec_trimmed(
            input@,
        )))),
        spec_is_cmd(spec_trimmed(input@)) && spec_verb(spec_trimmed(input@)) == "/help"@ ==> r
            is Help,
        spec_is_cmd(spec_trimmed(input@)) && (spec_verb(spec_trimmed(input@)) == "/quit"@
            || spec_verb(spec_trimmed(input@)) == "/exit"@) ==> r is Quit,
        spec_is_cmd(spec_trimmed(input@)) && spec_verb(spec_trimmed(input@)) != "/claim"@
            && spec_verb(spec_trimmed(input@)) != "/help"@ && spec_verb(spec_trimmed(input@))
            != "/quit"@ && spec_verb(spec_trimmed(input@)) != "/exit"@ ==> (r matches
            Command::Unknown(u) && u@ == spec_trimmed(input@)),
{
    proof {
        reveal_strlit("/claim");
        reveal_strlit("/help");
        reveal_strlit("/quit");
        reveal_strlit("/exit");
        reveal_strlit("-");
        assert("/claim"@.len() == 6 && "/help"@.len() == 5 && "/quit"@.len() == 5 && "/exit"@.len()
            == 5);
        assert("/help"@[1] == 'h' && "/quit"@[1] == 'q' && "/exit"@[1] == 'e');
    }
    let v = str_chars(input);
    let a = skip_space_index(&v);
    let b = trim_end_index(&v);
    if a >= b {
        proof {
            assert(spec_trimmed(input@).len() == 0);
        }
        let empty: Vec<char> = Vec::new();
        return Command::Unknown(string_from_chars(&empty));
    }
    let t = sub_chars(&v, a, b);
    proof {
        assert(t@ == spec_trimmed(input@));
    }
    if t[0] != '/' {
        return Command::Unknown(string_from_chars(&t));
    }
    let fs = find_space_index(&t);
    proof {
        assert(t@.subrange(0, fs as int) =~= spec_verb(t@));
    }
    if crate::text::segment_matches(&t, 0, fs, "/claim") {
        if fs == t.len() {
            proof {
                assert(spec_arg(t@).len() == 0);
            }
            return Command::Claim(None);
        }
        let rv = sub_chars(&t, fs + 1, t.len());
        let ra = skip_space_index(&rv);
        let rb = trim_end_index(&rv);
        if ra >= rb {
            proof {
                assert(spec_arg(t@).len() == 0);
            }
            return Command::Claim(None);
        }
        let rt = sub_chars(&rv, ra, rb);
        proof {
            assert(rt@ == spec_arg(t@));
        }
        let dash = rt.len() == 1 && rt[0] == '-';
        proof {
            reveal_strlit("-");
            assert(dash == (rt@ == "-"@)) by {
                if rt@.len() == 1 && rt@[0] == '-' {
                    assert(rt@ =~= "-"@);
                }
            }
        }
        if dash {
            return Command::Claim(Some(String::new()));
        }
        return Command::Claim(Some(string_from_chars(&rt)));
    }
    if crate::text::segment_matches(&t, 0, fs, "/help") {
        return Command::Help;
    }
    if crate::text::segment_matches(&t, 0, fs, "/quit") {
        return Command::Quit;
    }
    if crate::text::segment_matches(&t, 0, fs, "/exit") {
        return Command::Quit;
    }
    Command::Unknown(string_from_chars(&t))
}

} // verus!

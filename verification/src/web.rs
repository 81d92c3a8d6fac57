//! Text helpers at the web edge: response-body snippets for logs and the
//! prompt that asks for a page's publication date.

use vstd::prelude::*;
use vstd::string::StringExecFns;

use crate::text::{lossy_of, str_chars, string_from_chars, utf8_lossy};

verus! {

/// How many bytes one character takes when encoded: one below `0x80`, two
/// below `0x800`, three below `0x10000`, four beyond.
pub open spec fn spec_char_width(c: char) -> int {
    if (c as u32) < 0x80 {
        1
    } else if (c as u32) < 0x800 {
        2
    } else if (c as u32) < 0x10000 {
        3
    } else {
        4
    }
}

/// The encoded width of one character.
pub fn char_width(c: char) -> (r: u64)
    ensures
        r == spec_char_width(c),
{
    let u = c as u32;
    if u < 0x80 {
        1
    } else if u < 0x800 {
        2
    } else if u < 0x10000 {
        3
    } else {
        4
    }
}

/// Byte budget of a logged body snippet.
pub const SNIP_BUDGET: u64 = 500;

/// The number of leading characters of `s`, starting at `i` with `used`
/// bytes already spent, that fit the snippet budget.
pub open spec fn spec_snip_cut(s: Seq<char>, i: int, used: int) -> int
    decreases s.len() - i,
{
    if i < 0 || i >= s.len() {
        i
    } else if used + spec_char_width(s[i]) <= SNIP_BUDGET {
        spec_snip_cut(s, i + 1, used + spec_char_width(s[i]))
    } else {
        i
    }
}

/// A loggable snippet of a response body: the body decoded (invalid
/// sequences replaced), cut to the characters that fit the byte budget,
/// with an ellipsis when anything was cut.
pub fn snip_body(body: &[u8]) -> (r: String)
    ensures
        spec_snip_cut(lossy_of(body@), 0, 0) == lossy_of(body@).len() ==> r@ == lossy_of(body@),
        spec_snip_cut(lossy_of(body@), 0, 0) < lossy_of(body@).len() ==> r@ == lossy_of(
            body@,
        ).take(spec_snip_cut(lossy_of(body@), 0, 0)) + "..."@,
{
    let s = utf8_lossy(body);
    let v = str_chars(s.as_str());
    let n = v.len();
    let mut i: usize = 0;
    let mut used: u64 = 0;
    let mut cut = false;
    while i < n && !cut
        invariant
            0 <= i <= n,
            n == v@.len(),
            v@ == lossy_of(body@),
            used <= SNIP_BUDGET,
            !cut ==> spec_snip_cut(v@, 0, 0) == spec_snip_cut(v@, i as int, used as int),
            cut ==> spec_snip_cut(v@, 0, 0) == i && i < n,
        decreases n - i, (if cut {
            0int
        } else {
            1int
        }),
    {
        let w = char_width(v[i]);
        if used + w <= SNIP_BUDGET {
            used = used + w;
            i = i + 1;
        } else {
            cut = true;
        }
    }
    if !cut {
        proof {
            assert(spec_snip_cut(v@, 0, 0) == n);
        }
        return s;
    }
    let mut out: Vec<char> = Vec::new();
    let mut j: usize = 0;
    while j < i
        invariant
            0 <= j <= i <= v@.len(),
            out@ == v@.take(j as int),
        decreases i - j,
    {
        out.push(v[j]);
        proof {
            assert(out@ =~= v@.take(j + 1));
        }
        j = j + 1;
    }
    let prefix = string_from_chars(&out);
    let mut r = prefix;
    r.append("...");
    proof {
        assert(v@.take(i as int) == lossy_of(body@).take(spec_snip_cut(lossy_of(body@), 0, 0)));
    }
    r
}

/// What precedes the page text in the publication-date prompt.
pub const PUBDATE_PROMPT_HEAD: &'static str = "
Return STRICT JSON ONLY, matching exactly this shape:

{
  \"published_at\": \"<RFC3339 timestamp string>\" | null
}

Rules:
- If a clear publication date exists (e.g., meta tags like datePublished, article:published_time, time tags, etc.), output it as an RFC3339 string (e.g., \"2025-08-15T15:14:04+00:00\").
- If you cannot find a trustworthy publication date, set \"published_at\" to null.
- Do not include any other properties or text.

HTML:
";

/// Build the prompt that asks for a page's publication date: the fixed
/// instructions, then the page text.
pub fn build_pubdate_finder_html_prompt(html_string: &str) -> (r: String)
    ensures
        r@ == PUBDATE_PROMPT_HEAD@ + html_string@,
{
    let mut r = PUBDATE_PROMPT_HEAD.to_owned();
    r.append(html_string);
    r
}

} // verus!

//! Character-level text helpers shared by the string-handling functions.
//!
//! Strings are modelled by their character sequences. The helpers here move
//! between `&str`, `Vec<char>` and `String`, classify ASCII characters, and
//! render small integers in decimal — everything the command parser, the
//! query sanitizer and the argument builders need.

use vstd::prelude::*;
use vstd::string::StrSliceExecFns;
use vstd::string::StringExecFns;

verus! {

/// Whether `c` counts as whitespace under Unicode's definition.
pub uninterp spec fn is_unicode_space(c: char) -> bool;

/// Relies on char::is_whitespace: whether `c` has the Unicode white-space
/// property. The result depends on the character alone; the property table
/// holds space, tab, line and carriage returns, and no other character of
/// the printable ASCII range.
#[verifier::external_body]
pub fn char_is_space(c: char) -> (r: bool)
    ensures
        r == is_unicode_space(c),
        c == ' ' || c == '\t' || c == '\n' || c == '\r' ==> r,
        33 <= c as u32 <= 126 ==> !r,
{
    c.is_whitespace()
}

/// The characters of `s`, in order.
pub fn str_chars(s: &str) -> (r: Vec<char>)
    ensures
        r@ == s@,
{
    let n = s.unicode_len();
    let mut v: Vec<char> = Vec::new();
    let mut i: usize = 0;
    while i < n
        invariant
            0 <= i <= n,
            n == s@.len(),
            v@ == s@.take(i as int),
        decreases n - i,
    {
        v.push(s.get_char(i));
        proof {
            assert(v@ =~= s@.take(i + 1));
        }
        i = i + 1;
    }
    proof {
        assert(s@.take(n as int) =~= s@);
    }
    v
}

/// Relies on String::from_iter over std's char iterator: builds the string
/// whose characters are exactly the ones given.
#[verifier::external_body]
pub fn string_from_chars(v: &Vec<char>) -> (r: String)
    ensures
        r@ == v@,
{
    v.iter().collect()
}

/// The characters a byte sequence decodes to, invalid sequences replaced.
pub uninterp spec fn lossy_of(bytes: Seq<u8>) -> Seq<char>;

/// Relies on String::from_utf8_lossy: decodes the bytes, replacing invalid
/// sequences. The result depends on the bytes alone; empty input decodes
/// to the empty string.
#[verifier::external_body]
pub fn utf8_lossy(bytes: &[u8]) -> (r: String)
    ensures
        r@ == lossy_of(bytes@),
        bytes@.len() == 0 ==> r@.len() == 0,
{
    String::from_utf8_lossy(bytes).into_owned()
}

/// ASCII lowercase of one character: letters `A`..`Z` drop to `a`..`z`,
/// everything else is untouched.
pub open spec fn spec_lower_char(c: char) -> char {
    if 65 <= c as u32 <= 90 {
        ((c as u32 + 32) as u8) as char
    } else {
        c
    }
}

/// Lower one character, ASCII-wise.
pub fn lower_char(c: char) -> (r: char)
    ensures
        r == spec_lower_char(c),
{
    let u = c as u32;
    if 65 <= u && u <= 90 {
        ((u + 32) as u8) as char
    } else {
        c
    }
}

/// Whether `c` is an ASCII letter, digit, or underscore.
pub open spec fn spec_is_word_char(c: char) -> bool {
    ||| 48 <= c as u32 <= 57
    ||| 65 <= c as u32 <= 90
    ||| 97 <= c as u32 <= 122
    ||| c as u32 == 95
}

/// Test for an ASCII letter, digit, or underscore.
pub fn is_word_char(c: char) -> (r: bool)
    ensures
        r == spec_is_word_char(c),
{
    let u = c as u32;
    (48 <= u && u <= 57) || (65 <= u && u <= 90) || (97 <= u && u <= 122) || u == 95
}

/// Whether a slice of `v` equals the characters of `lit`.
pub fn segment_matches(v: &Vec<char>, start: usize, end: usize, lit: &str) -> (r: bool)
    requires
        start <= end <= v@.len(),
    ensures
        r == (v@.subrange(start as int, end as int) == lit@),
{
    let m = lit.unicode_len();
    if end - start != m {
        proof {
            assert(v@.subrange(start as int, end as int).len() == end - start);
        }
        return false;
    }
    let mut k: usize = 0;
    while k < m
        invariant
            0 <= k <= m,
            m == lit@.len(),
            start <= end <= v@.len(),
            end - start == m,
            forall|j: int| 0 <= j < k ==> v@.subrange(start as int, end as int)[j] == lit@[j],
        decreases m - k,
    {
        if v[start + k] != lit.get_char(k) {
            proof {
                assert(v@.subrange(start as int, end as int)[k as int] != lit@[k as int]);
            }
            return false;
        }
        proof {
            assert(v@.subrange(start as int, end as int)[k as int] == lit@[k as int]);
        }
        k = k + 1;
    }
    proof {
        assert(v@.subrange(start as int, end as int) =~= lit@);
    }
    true
}

/// The items joined with a single comma between neighbours.
pub open spec fn spec_join_comma(items: Seq<Seq<char>>) -> Seq<char>
    decreases items.len(),
{
    if items.len() == 0 {
        Seq::empty()
    } else if items.len() == 1 {
        items[0]
    } else {
        spec_join_comma(items.drop_last()) + ","@ + items.last()
    }
}

/// Join strings with commas.
pub fn join_comma(items: &Vec<String>) -> (r: String)
    ensures
        r@ == spec_join_comma(items@.map_values(|s: String| s@)),
{
    let ghost views = items@.map_values(|s: String| s@);
    let mut out = String::new();
    let n = items.len();
    let mut i: usize = 0;
    while i < n
        invariant
            0 <= i <= n,
            n == items@.len(),
            views == items@.map_values(|s: String| s@),
            out@ == spec_join_comma(views.take(i as int)),
        decreases n - i,
    {
        if i > 0 {
            out.append(",");
        }
        out.append(items[i].as_str());
        proof {
            assert(views.take(i + 1).drop_last() =~= views.take(i as int));
            assert(views.take(i + 1).last() == views[i as int]);
            if i == 0 {
                assert(spec_join_comma(views.take(1)) == views[0]);
                assert(out@ =~= views[0]);
            }
        }
        i = i + 1;
    }
    proof {
        assert(views.take(n as int) =~= views);
    }
    out
}

/// The decimal digits of `n`, most significant first.
pub open spec fn spec_decimal(n: int) -> Seq<char>
    decreases n,
{
    if n <= 0 {
        Seq::empty()
    } else {
        spec_decimal(n / 10).push(((48 + n % 10) as u8) as char)
    }
}

/// The decimal rendering of `n`: `"0"` for zero, else its digits with no
/// leading zero.
pub open spec fn spec_u32_string(n: u32) -> Seq<char> {
    if n == 0 {
        seq!['0']
    } else {
        spec_decimal(n as int)
    }
}

/// Render `n` in decimal.
pub fn u32_string(n: u32) -> (r: String)
    ensures
        r@ == spec_u32_string(n),
{
    if n == 0 {
        let v: Vec<char> = vec!['0'];
        let s = string_from_chars(&v);
        proof {
            assert(v@ =~= seq!['0']);
        }
        return s;
    }
    let mut digits: Vec<char> = Vec::new();
    let mut m: u32 = n;
    while m > 0
        invariant
            0 <= m <= n,
            spec_decimal(n as int) == spec_decimal(m as int) + digits@,
        decreases m,
    {
        let ghost prev = digits@;
        let ghost mi = m as int;
        let d: u8 = (m % 10) as u8;
        let c: char = (48 + d) as char;
        digits.insert(0, c);
        proof {
            assert(digits@ =~= seq![c] + prev);
            assert(c == ((48 + mi % 10) as u8) as char);
            assert(spec_decimal(mi) == spec_decimal(mi / 10).push(c));
            assert(spec_decimal(mi / 10).push(c) + prev =~= spec_decimal(mi / 10) + (seq![c]
                + prev));
        }
        m = m / 10;
    }
    proof {
        assert(spec_decimal(0int) + digits@ =~= digits@);
    }
    string_from_chars(&digits)
}

} // verus!

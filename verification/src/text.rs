use vstd::prelude::*;
use vstd::string::StrSliceExecFns;
use vstd::string::StringExecFns;

verus! {

/// Compares two string slices by their character content.
pub fn str_eq(a: &str, b: &str) -> (r: bool)
    ensures
        r == (a@ == b@),
{
    let sa = String::from_str(a);
    let sb = String::from_str(b);
    sa == sb
}

/// Collects the characters of a string slice into a vector.
pub fn chars_vec(s: &str) -> (v: Vec<char>)
    ensures
        v@ == s@,
{
    let n = s.unicode_len();
    let mut v: Vec<char> = Vec::new();
    let mut i: usize = 0;
    while i < n
        invariant
            n == s@.len(),
            i <= n,
            v@ == s@.subrange(0, i as int),
        decreases n - i,
    {
        v.push(s.get_char(i));
        assert(v@ =~= s@.subrange(0, i + 1 as int));
        i = i + 1;
    }
    assert(v@ =~= s@);
    v
}

/// Relies on `String`'s `FromIterator<char>` implementation: collecting an
/// iterator of characters yields a string holding exactly those characters,
/// in order.
#[verifier::external_body]
pub fn string_from_chars(v: &Vec<char>) -> (s: String)
    ensures
        s@ == v@,
{
    v.iter().collect()
}

/// Appends `src[from..to]` to `dst`.
pub fn push_range(dst: &mut Vec<char>, src: &Vec<char>, from: usize, to: usize)
    requires
        from <= to <= src.len(),
    ensures
        final(dst)@ == old(dst)@ + src@.subrange(from as int, to as int),
{
    assert(dst@ =~= dst@ + src@.subrange(from as int, from as int));
    let mut k: usize = from;
    while k < to
        invariant
            from <= k <= to <= src.len(),
            dst@ == old(dst)@ + src@.subrange(from as int, k as int),
        decreases to - k,
    {
        dst.push(src[k]);
        assert(dst@ =~= old(dst)@ + src@.subrange(from as int, k + 1 as int));
        k = k + 1;
    }
}

/// The whitespace the unwrapper trims: the characters with the Unicode
/// `White_Space` property, the set surrounding-whitespace trimming removes.
pub open spec fn spec_is_space(c: char) -> bool {
    c == '\t' || c == '\n' || c == '\u{B}' || c == '\u{C}' || c == '\r' || c == ' ' || c
        == '\u{85}' || c == '\u{A0}' || c == '\u{1680}' || (0x2000 <= c as u32 && c as u32
        <= 0x200A) || c == '\u{2028}' || c == '\u{2029}' || c == '\u{202F}' || c == '\u{205F}' || c
        == '\u{3000}'
}

/// `s` without its leading whitespace.
pub open spec fn spec_trim_start(s: Seq<char>) -> Seq<char>
    decreases s.len(),
{
    if s.len() > 0 && spec_is_space(s[0]) {
        spec_trim_start(s.drop_first())
    } else {
        s
    }
}

/// `s` without its trailing whitespace.
pub open spec fn spec_trim_end(s: Seq<char>) -> Seq<char>
    decreases s.len(),
{
    if s.len() > 0 && spec_is_space(s.last()) {
        spec_trim_end(s.drop_last())
    } else {
        s
    }
}

/// `s` without its surrounding whitespace.
pub open spec fn spec_trim(s: Seq<char>) -> Seq<char> {
    spec_trim_end(spec_trim_start(s))
}

/// `s` with every `\"` escape turned back into a bare quote, left to right.
pub open spec fn spec_unescape_quotes(s: Seq<char>) -> Seq<char>
    decreases s.len(),
{
    if s.len() >= 2 && s[0] == '\\' && s[1] == '"' {
        seq!['"'] + spec_unescape_quotes(s.subrange(2, s.len() as int))
    } else if s.len() >= 1 {
        seq![s[0]] + spec_unescape_quotes(s.subrange(1, s.len() as int))
    } else {
        s
    }
}

/// What the raw unwrapper yields: text that does not open with a quote passes
/// through unchanged; otherwise the opening quote and the quote just before
/// the final character go, the rest is trimmed, a newline is appended, and
/// quote escapes are undone.
pub open spec fn spec_pop_quotes(s: Seq<char>) -> Seq<char> {
    if s.len() == 0 || s[0] != '"' {
        s
    } else {
        let kept = if s.len() >= 3 && s[s.len() - 2] == '"' {
            s.subrange(1, s.len() - 2) + s.subrange(s.len() - 1, s.len() as int)
        } else {
            s.subrange(1, s.len() as int)
        };
        spec_unescape_quotes(spec_trim(kept).push('\n'))
    }
}

/// A value that does not open with a quote is no engine string scalar, and
/// the raw unwrapper passes it through unchanged.
pub proof fn lemma_pop_quotes_non_string(s: Seq<char>)
    requires
        s.len() == 0 || s[0] != '"',
    ensures
        spec_pop_quotes(s) == s,
{
}

fn is_space_char(c: char) -> (r: bool)
    ensures
        r == spec_is_space(c),
{
    c == '\t' || c == '\n' || c == '\u{B}' || c == '\u{C}' || c == '\r' || c == ' ' || c == '\u{85}'
        || c == '\u{A0}' || c == '\u{1680}' || (0x2000 <= c as u32 && c as u32 <= 0x200A) || c
        == '\u{2028}' || c == '\u{2029}' || c == '\u{202F}' || c == '\u{205F}' || c == '\u{3000}'
}

/// Strips surrounding whitespace from a character vector.
fn trim_chars(v: &Vec<char>) -> (r: Vec<char>)
    ensures
        r@ == spec_trim(v@),
{
    let n = v.len();
    let mut a: usize = 0;
    proof {
        assert(v@.subrange(0, n as int) =~= v@);
    }
    while a < n && is_space_char(v[a])
        invariant
            a <= n,
            n == v.len(),
            spec_trim_start(v@) == spec_trim_start(v@.subrange(a as int, n as int)),
        decreases n - a,
    {
        proof {
            assert(v@.subrange(a as int, n as int).drop_first() =~= v@.subrange(
                a + 1 as int,
                n as int,
            ));
            assert(v@.subrange(a as int, n as int)[0] == v@[a as int]);
        }
        a = a + 1;
    }
    proof {
        if a < n {
            assert(v@.subrange(a as int, n as int)[0] == v@[a as int]);
        }
        assert(spec_trim_start(v@) == v@.subrange(a as int, n as int));
    }
    let mut b: usize = n;
    while b > a && is_space_char(v[b - 1])
        invariant
            a <= b <= n,
            n == v.len(),
            spec_trim_start(v@) == v@.subrange(a as int, n as int),
            spec_trim_end(v@.subrange(a as int, n as int)) == spec_trim_end(
                v@.subrange(a as int, b as int),
            ),
        decreases b,
    {
        proof {
            assert(v@.subrange(a as int, b as int).drop_last() =~= v@.subrange(
                a as int,
                b - 1 as int,
            ));
            assert(v@.subrange(a as int, b as int).last() == v@[b - 1]);
        }
        b = b - 1;
    }
    proof {
        if b > a {
            assert(v@.subrange(a as int, b as int).last() == v@[b - 1]);
        }
        assert(spec_trim_end(v@.subrange(a as int, b as int)) == v@.subrange(a as int, b as int));
    }
    let mut r: Vec<char> = Vec::new();
    push_range(&mut r, v, a, b);
    proof {
        assert(r@ =~= v@.subrange(a as int, b as int));
    }
    r
}

/// Undoes the `\"` escapes of `v`, left to right.
fn unescape_quotes(v: &Vec<char>) -> (r: Vec<char>)
    ensures
        r@ == spec_unescape_quotes(v@),
{
    let n = v.len();
    let mut out: Vec<char> = Vec::new();
    let mut i: usize = 0;
    proof {
        assert(v@.subrange(0, n as int) =~= v@);
        assert(out@ + spec_unescape_quotes(v@) =~= spec_unescape_quotes(v@));
    }
    while i < n
        invariant
            i <= n,
            n == v.len(),
            spec_unescape_quotes(v@) == out@ + spec_unescape_quotes(
                v@.subrange(i as int, n as int),
            ),
        decreases n - i,
    {
        let ghost rest = v@.subrange(i as int, n as int);
        proof {
            assert(rest[0] == v@[i as int]);
            if i + 1 < n {
                assert(rest[1] == v@[i + 1]);
            }
        }
        if v[i] == '\\' && i + 1 < n && v[i + 1] == '"' {
            let ghost out0 = out@;
            out.push('"');
            proof {
                assert(rest.subrange(2, rest.len() as int) =~= v@.subrange(i + 2 as int, n as int));
                let x = spec_unescape_quotes(v@.subrange(i + 2 as int, n as int));
                assert(spec_unescape_quotes(rest) == seq!['"'] + x);
                assert(out0.push('"') =~= out0 + seq!['"']);
                assert(out0 + (seq!['"'] + x) =~= (out0 + seq!['"']) + x);
            }
            i = i + 2;
        } else {
            let ghost out0 = out@;
            out.push(v[i]);
            proof {
                assert(rest.subrange(1, rest.len() as int) =~= v@.subrange(i + 1 as int, n as int));
                let x = spec_unescape_quotes(v@.subrange(i + 1 as int, n as int));
                assert(spec_unescape_quotes(rest) == seq![rest[0]] + x);
                assert(out0.push(v@[i as int]) =~= out0 + seq![rest[0]]);
                assert(out0 + (seq![rest[0]] + x) =~= (out0 + seq![rest[0]]) + x);
            }
            i = i + 1;
        }
    }
    proof {
        assert(spec_unescape_quotes(v@) =~= out@);
    }
    out
}

/// Turns an engine string result back into raw text, undoing the engine's
/// quoting and quote escaping; anything that is not a string scalar passes
/// through untouched.
pub fn pop_quotes(text: &str) -> (r: String)
    ensures
        r@ == spec_pop_quotes(text@),
{
    let cv = chars_vec(text);
    let n = cv.len();
    if n == 0 || cv[0] != '"' {
        return String::from_str(text);
    }
    let mut kept: Vec<char> = Vec::new();
    if n >= 3 && cv[n - 2] == '"' {
        push_range(&mut kept, &cv, 1, n - 2);
        push_range(&mut kept, &cv, n - 1, n);
        proof {
            assert(kept@ =~= text@.subrange(1, n - 2) + text@.subrange(n - 1, n as int));
        }
    } else {
        push_range(&mut kept, &cv, 1, n);
        proof {
            assert(kept@ =~= text@.subrange(1, n as int));
        }
    }
    let trimmed = trim_chars(&kept);
    let mut with_nl = trimmed;
    with_nl.push('\n');
    let out = unescape_quotes(&with_nl);
    string_from_chars(&out)
}

} // verus!

use vstd::prelude::*;
use vstd::string::StrSliceExecFns;
use vstd::string::StringExecFns;
use vstd::utf8::decode_utf8;
use vstd::utf8::encode_utf8;
use vstd::utf8::valid_utf8;

use crate::errors::Error;
use crate::format::spec_extension_of;
use crate::format::FileFormat;
use crate::text::chars_vec;
use crate::text::push_range;
use crate::text::string_from_chars;

verus! {

#[verifier::external_type_specification]
#[verifier::external_body]
pub struct ExSyntaxSet(syntect::parsing::SyntaxSet);

#[verifier::external_type_specification]
#[verifier::external_body]
pub struct ExThemeSet(syntect::highlighting::ThemeSet);

/// The syntax grammars and color themes the highlighter draws on. The only
/// constructor loads syntect's compiled-in defaults, so every value of this
/// type holds the same sets.
pub struct Styles {
    syntax_set: syntect::parsing::SyntaxSet,
    theme_set: syntect::highlighting::ThemeSet,
}

/// Relies on `syntect::parsing::SyntaxSet::load_defaults_newlines`: the
/// default grammar set compiled into the crate.
#[verifier::external_body]
fn load_syntax_set() -> syntect::parsing::SyntaxSet {
    syntect::parsing::SyntaxSet::load_defaults_newlines()
}

/// Relies on `syntect::highlighting::ThemeSet::load_defaults`: the default
/// theme set compiled into the crate, which always holds the InspiredGitHub
/// theme.
#[verifier::external_body]
fn load_theme_set() -> syntect::highlighting::ThemeSet {
    syntect::highlighting::ThemeSet::load_defaults()
}

impl Styles {
    /// Loads the default grammars and themes.
    pub fn new() -> Styles {
        Styles { syntax_set: load_syntax_set(), theme_set: load_theme_set() }
    }
}

/// Whether the default grammar set defines a syntax for this file extension.
/// Every `Styles` value holds the same compiled-in sets, so this depends on
/// the extension alone.
pub uninterp spec fn grammar_known(ext: Seq<char>) -> bool;

/// One line of text decorated with the color escapes the default grammar and
/// theme assign to it. Every `Styles` value holds the same compiled-in sets,
/// so this depends on the extension and the line alone.
pub uninterp spec fn highlighted_of(ext: Seq<char>, line: Seq<char>) -> Seq<char>;

/// Relies on `syntect::parsing::SyntaxSet::find_syntax_by_extension`.
#[verifier::external_body]
fn find_grammar(styles: &Styles, ext: &str) -> (r: bool)
    ensures
        r == grammar_known(ext@),
{
    styles.syntax_set.find_syntax_by_extension(ext).is_some()
}

/// Relies on `syntect::easy::HighlightLines::highlight_line` over the
/// default InspiredGitHub theme, and on
/// `syntect::util::as_24_bit_terminal_escaped`, which decorates the line
/// with foreground-color escapes. A fresh highlighter is used per line, so
/// the result is a function of the extension and the line.
#[verifier::external_body]
fn highlight_line(styles: &Styles, ext: &str, line: &str) -> (r: String)
    requires
        grammar_known(ext@),
    ensures
        r@ == highlighted_of(ext@, line@),
{
    let syntax = match styles.syntax_set.find_syntax_by_extension(ext) {
        Some(s) => s,
        None => return String::from(line),
    };
    let theme = &styles.theme_set.themes["InspiredGitHub"];
    let mut lighter = syntect::easy::HighlightLines::new(syntax, theme);
    match lighter.highlight_line(line, &styles.syntax_set) {
        Ok(ranges) => syntect::util::as_24_bit_terminal_escaped(&ranges[..], false),
        Err(_) => String::from(line),
    }
}

/// Relies on `String::from_utf8`: `Ok` exactly on valid UTF-8, yielding the
/// text those bytes encode.
#[verifier::external_body]
fn string_from_utf8(bytes: Vec<u8>) -> (r: Option<String>)
    ensures
        r matches Some(s) ==> valid_utf8(bytes@) && s@ == decode_utf8(bytes@),
        r is Some <==> valid_utf8(bytes@),
{
    String::from_utf8(bytes).ok()
}

/// The length of the first line of `s`, its terminator included.
pub open spec fn spec_first_line_len(s: Seq<char>) -> int
    decreases s.len(),
{
    if s.len() == 0 {
        0
    } else if s[0] == '\n' {
        1
    } else {
        1 + spec_first_line_len(s.subrange(1, s.len() as int))
    }
}

proof fn lemma_first_line_len_bounds(s: Seq<char>)
    ensures
        s.len() == 0 ==> spec_first_line_len(s) == 0,
        s.len() > 0 ==> 1 <= spec_first_line_len(s) <= s.len(),
    decreases s.len(),
{
    if s.len() > 0 && s[0] != '\n' {
        lemma_first_line_len_bounds(s.subrange(1, s.len() as int));
    }
}

/// `s` split at line boundaries, each line keeping its terminator; text
/// after the final newline forms a last, unterminated line.
pub open spec fn spec_lines(s: Seq<char>) -> Seq<Seq<char>>
    decreases s.len(),
    via spec_lines_decreases
{
    if s.len() == 0 {
        Seq::empty()
    } else {
        let k = spec_first_line_len(s);
        seq![s.subrange(0, k)] + spec_lines(s.subrange(k, s.len() as int))
    }
}

#[via_fn]
proof fn spec_lines_decreases(s: Seq<char>) {
    lemma_first_line_len_bounds(s);
}

/// If no newline stands before position `k`, and `k` is the stream's end or
/// a newline, the first line runs exactly to `k`.
proof fn lemma_first_line_scan(s: Seq<char>, k: int)
    requires
        0 <= k <= s.len(),
        forall|t: int| 0 <= t < k ==> s[t] != '\n',
        k == s.len() || s[k] == '\n',
    ensures
        spec_first_line_len(s) == if k < s.len() {
            k + 1
        } else {
            k
        },
    decreases k,
{
    if k == 0 {
    } else {
        let tail = s.subrange(1, s.len() as int);
        assert(forall|t: int| 0 <= t < k - 1 ==> tail[t] == s[t + 1]);
        lemma_first_line_scan(tail, k - 1);
    }
}

/// Splits text into its lines, terminators kept.
fn split_lines(text: &str) -> (r: Vec<String>)
    ensures
        r.deep_view() == spec_lines(text@),
{
    let cv = chars_vec(text);
    let n = cv.len();
    let mut lines: Vec<String> = Vec::new();
    let mut i: usize = 0;
    proof {
        assert(lines.deep_view() =~= Seq::<Seq<char>>::empty());
        assert(lines.deep_view() + spec_lines(text@) =~= spec_lines(text@));
        assert(text@.subrange(0, n as int) =~= text@);
    }
    while i < n
        invariant
            i <= n,
            n == cv.len(),
            cv@ == text@,
            spec_lines(text@) == lines.deep_view() + spec_lines(
                text@.subrange(i as int, n as int),
            ),
        decreases n - i,
    {
        let ghost rest = text@.subrange(i as int, n as int);
        let mut j: usize = i;
        while j < n && cv[j] != '\n'
            invariant
                i <= j <= n,
                n == cv.len(),
                cv@ == text@,
                forall|t: int| i <= t < j ==> text@[t] != '\n',
            decreases n - j,
        {
            j = j + 1;
        }
        let end = if j < n {
            j + 1
        } else {
            j
        };
        proof {
            assert(forall|t: int| 0 <= t < j - i ==> rest[t] == text@[i + t]);
            lemma_first_line_scan(rest, j - i);
            assert(spec_first_line_len(rest) == end - i);
        }
        let mut lv: Vec<char> = Vec::new();
        push_range(&mut lv, &cv, i, end);
        let ghost lines0 = lines.deep_view();
        let line = string_from_chars(&lv);
        lines.push(line);
        proof {
            assert(rest.subrange(0, (end - i) as int) =~= text@.subrange(i as int, end as int));
            assert(lv@ =~= text@.subrange(i as int, end as int));
            assert(lines.deep_view() =~= lines0.push(rest.subrange(0, (end - i) as int)));
            assert(rest.subrange((end - i) as int, rest.len() as int) =~= text@.subrange(
                end as int,
                n as int,
            ));
            assert(spec_lines(rest) == seq![rest.subrange(0, (end - i) as int)] + spec_lines(
                text@.subrange(end as int, n as int),
            ));
            assert(lines0 + (seq![rest.subrange(0, (end - i) as int)] + spec_lines(
                text@.subrange(end as int, n as int),
            )) =~= lines0.push(rest.subrange(0, (end - i) as int)) + spec_lines(
                text@.subrange(end as int, n as int),
            ));
        }
        i = end;
    }
    proof {
        assert(spec_lines(text@.subrange(n as int, n as int)) =~= Seq::<Seq<char>>::empty());
        assert(lines.deep_view() + Seq::<Seq<char>>::empty() =~= lines.deep_view());
    }
    lines
}

/// The highlighted rendering of each line, concatenated in order.
pub open spec fn spec_highlighted_lines(ext: Seq<char>, lines: Seq<Seq<char>>) -> Seq<char>
    decreases lines.len(),
{
    if lines.len() == 0 {
        Seq::empty()
    } else {
        spec_highlighted_lines(ext, lines.drop_last()) + highlighted_of(ext, lines.last())
    }
}

/// What flushing a highlighted buffer emits: every line colorized, then one
/// color-reset escape.
pub open spec fn spec_highlighted_text(ext: Seq<char>, text: Seq<char>) -> Seq<char> {
    spec_highlighted_lines(ext, spec_lines(text)) + "\x1b[0m"@
}

/// A buffering sink that defers colorization until a complete output unit is
/// known: bytes accumulate untouched, and a one-shot flush colorizes the
/// whole text.
pub struct Writer {
    pub buf: Vec<u8>,
    pub format: FileFormat,
}

impl Writer {
    /// An empty buffer that will colorize as `format` on flush.
    pub fn new(format: FileFormat) -> (r: Writer)
        ensures
            r.buf@ == Seq::<u8>::empty(),
            r.format == format,
    {
        Writer { buf: Vec::new(), format }
    }

    /// Appends bytes to the pending buffer; never inspects them.
    pub fn write(&mut self, bytes: &[u8])
        ensures
            final(self).buf@ == old(self).buf@ + bytes@,
            final(self).format == old(self).format,
    {
        let n = bytes.len();
        proof {
            assert(self.buf@ + bytes@.subrange(0, 0) =~= self.buf@);
        }
        let mut k: usize = 0;
        while k < n
            invariant
                k <= n,
                n == bytes@.len(),
                self.buf@ == old(self).buf@ + bytes@.subrange(0, k as int),
                self.format == old(self).format,
            decreases n - k,
        {
            self.buf.push(bytes[k]);
            proof {
                assert(self.buf@ =~= old(self).buf@ + bytes@.subrange(0, k + 1 as int));
            }
            k = k + 1;
        }
        proof {
            assert(bytes@.subrange(0, n as int) =~= bytes@);
        }
    }

    /// One-shot finalize: when the declared format has a grammar, the
    /// buffered text is colorized line by line and closed with a color
    /// reset; without a grammar the bytes pass through unchanged, aside from
    /// the mandatory trailing reset. A buffer that needs colorizing but is
    /// not valid text is reported, not silently passed on.
    pub fn write_highlight(self, styles: &Styles) -> (r: Result<Vec<u8>, Error>)
        ensures
            !grammar_known(spec_extension_of(self.format)) ==> (r matches Ok(out) && out@
                == self.buf@ + encode_utf8("\x1b[0m"@)),
            grammar_known(spec_extension_of(self.format)) && !valid_utf8(self.buf@) ==> (r
                matches Err(e) && e is InvalidText),
            grammar_known(spec_extension_of(self.format)) && valid_utf8(self.buf@) ==> (r
                matches Ok(out) && out@ == encode_utf8(
                spec_highlighted_text(spec_extension_of(self.format), decode_utf8(self.buf@)),
            )),
    {
        let ext = self.format.to_extension();
        let ghost buf0 = self.buf@;
        if !find_grammar(styles, ext) {
            let mut out = self.buf;
            let mut reset = "\x1b[0m".as_bytes_vec();
            out.append(&mut reset);
            return Ok(out);
        }
        let text = match string_from_utf8(self.buf) {
            Some(t) => t,
            None => {
                return Err(Error::InvalidText);
            },
        };
        let lines = split_lines(text.as_str());
        let ghost ldv = lines.deep_view();
        let n = lines.len();
        let mut acc = String::new();
        let mut k: usize = 0;
        proof {
            assert(ldv.subrange(0, 0) =~= Seq::<Seq<char>>::empty());
        }
        while k < n
            invariant
                k <= n,
                n == lines.len(),
                ldv == lines.deep_view(),
                ldv.len() == n,
                grammar_known(ext@),
                acc@ == spec_highlighted_lines(ext@, ldv.subrange(0, k as int)),
            decreases n - k,
        {
            let colored = highlight_line(styles, ext, lines[k].as_str());
            acc.append(colored.as_str());
            proof {
                let here = ldv.subrange(0, k + 1);
                assert(here.drop_last() =~= ldv.subrange(0, k as int));
                assert(here.last() == ldv[k as int]);
                assert(lines@[k as int]@ == ldv[k as int]);
            }
            k = k + 1;
        }
        proof {
            assert(ldv.subrange(0, n as int) =~= ldv);
        }
        acc.append("\x1b[0m");
        Ok(acc.as_str().as_bytes_vec())
    }
}

} // verus!

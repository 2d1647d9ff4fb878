use vstd::prelude::*;
use vstd::string::StrSliceExecFns;
use vstd::string::StringExecFns;
use vstd::utf8::encode_utf8;

use crate::codec::spec_write_format;
use crate::errors::Error;
use crate::format::spec_extension_of;
use crate::format::FileFormat;
use crate::highlight::grammar_known;
use crate::highlight::spec_highlighted_text;
use crate::highlight::Styles;
use crate::highlight::Writer;
use crate::text::pop_quotes;
use crate::text::spec_pop_quotes;

verus! {

/// One run's configuration, as the command line states it.
pub struct Args {
    /// The program the engine runs over every document.
    pub program: String,
    /// Input file paths; an empty list means one unnamed stream.
    pub files: Vec<String>,
    /// The declared input format, if any; otherwise extension lookup and
    /// content sniffing decide.
    pub input_format: Option<FileFormat>,
    /// The declared output format, if any.
    pub output_format: Option<FileFormat>,
    /// Unwrap string results to plain text instead of re-encoding.
    pub raw: bool,
    /// Concatenate all inputs into one JSON array before querying.
    pub slurp: bool,
    /// Force color on or off; unset means color on a terminal only.
    pub color: Option<bool>,
    /// Indent the output where the target format distinguishes renderings.
    pub pretty: bool,
}

/// The format the output is encoded in: raw mode selects none, an explicit
/// choice wins, and otherwise the input format round-trips.
pub open spec fn spec_plan_output(
    raw: bool,
    chosen: Option<FileFormat>,
    input_format: FileFormat,
) -> Option<FileFormat> {
    if raw {
        None
    } else {
        match chosen {
            Some(f) => Some(f),
            None => Some(input_format),
        }
    }
}

/// Whether output is colored: an explicit flag wins; otherwise color is used
/// only on a terminal, and only when a structured format is emitted.
pub open spec fn spec_should_color(
    color: Option<bool>,
    format: Option<FileFormat>,
    is_tty: bool,
) -> bool {
    match color {
        Some(b) => b,
        None => is_tty && format is Some,
    }
}

impl Args {
    /// Rejects a configuration that asks for raw mode and an explicit output
    /// format at once, before any decode or query work starts.
    pub fn validate(&self) -> (r: Result<(), Error>)
        ensures
            r is Err <==> self.raw && self.output_format is Some,
            r matches Err(e) ==> e is Config,
    {
        if self.raw && self.output_format.is_some() {
            Err(Error::Config)
        } else {
            Ok(())
        }
    }

    /// Decides the output format for documents that arrived as
    /// `input_format`.
    pub fn plan_output(&self, input_format: FileFormat) -> (r: Option<FileFormat>)
        ensures
            r == spec_plan_output(self.raw, self.output_format, input_format),
    {
        if self.raw {
            None
        } else {
            match self.output_format {
                Some(f) => Some(f),
                None => Some(input_format),
            }
        }
    }

    /// Decides whether the output stream is colored.
    pub fn should_color(&self, format: Option<FileFormat>, is_tty: bool) -> (r: bool)
        ensures
            r == spec_should_color(self.color, format, is_tty),
    {
        match self.color {
            Some(should) => should,
            None => if is_tty {
                format.is_some()
            } else {
                false
            },
        }
    }
}

/// Raw-mode rendering: every engine output unwrapped and concatenated in
/// order.
pub open spec fn spec_raw_rendered(outs: Seq<Seq<char>>) -> Seq<char>
    decreases outs.len(),
{
    if outs.len() == 0 {
        Seq::empty()
    } else {
        spec_raw_rendered(outs.drop_last()) + spec_pop_quotes(outs.last())
    }
}

/// The final output text for per-document engine outputs: raw mode unwraps
/// and concatenates, a target format encodes and frames; `None` when the
/// format cannot represent the document count or some document.
pub open spec fn spec_rendered(
    outs: Seq<Seq<char>>,
    output_format: Option<FileFormat>,
    pretty: bool,
) -> Option<Seq<char>> {
    match output_format {
        None => Some(spec_raw_rendered(outs)),
        Some(f) => if !f.multi_document() && outs.len() > 1 {
            None
        } else {
            spec_write_format(f, outs, pretty)
        },
    }
}

/// Renders the engine's per-document outputs into one output text: raw mode
/// unwraps string results, a target format re-encodes every document.
pub fn render_outputs(
    outputs: &Vec<String>,
    output_format: Option<FileFormat>,
    pretty: bool,
) -> (r: Result<String, Error>)
    ensures
        r matches Ok(s) ==> spec_rendered(outputs.deep_view(), output_format, pretty) == Some(
            s@,
        ),
        r is Ok <==> spec_rendered(outputs.deep_view(), output_format, pretty) is Some,
        r matches Err(e) ==> e is UnsupportedMultiDocument || e is EncodeFailed,
{
    match output_format {
        Some(f) => f.write_format(outputs, pretty),
        None => {
            let n = outputs.len();
            let ghost dv = outputs.deep_view();
            let mut acc = String::new();
            let mut k: usize = 0;
            proof {
                assert(dv.subrange(0, 0) =~= Seq::<Seq<char>>::empty());
            }
            while k < n
                invariant
                    k <= n,
                    n == outputs.len(),
                    dv == outputs.deep_view(),
                    dv.len() == n,
                    acc@ == spec_raw_rendered(dv.subrange(0, k as int)),
                decreases n - k,
            {
                let unwrapped = pop_quotes(outputs[k].as_str());
                acc.append(unwrapped.as_str());
                proof {
                    let here = dv.subrange(0, k + 1);
                    assert(here.drop_last() =~= dv.subrange(0, k as int));
                    assert(here.last() == dv[k as int]);
                    assert(outputs@[k as int]@ == dv[k as int]);
                }
                k = k + 1;
            }
            proof {
                assert(dv.subrange(0, n as int) =~= dv);
            }
            Ok(acc)
        },
    }
}

/// The bytes the pipeline writes for one input's engine outputs: the outputs
/// rendered in the planned format, then colorized when color was asked for
/// and a structured format is emitted.
pub fn emit_output(
    outputs: &Vec<String>,
    output_format: Option<FileFormat>,
    pretty: bool,
    color: bool,
    styles: &Styles,
) -> (r: Result<Vec<u8>, Error>)
    ensures
        r is Ok <==> spec_rendered(outputs.deep_view(), output_format, pretty) is Some,
        match spec_rendered(outputs.deep_view(), output_format, pretty) {
            None => r is Err,
            Some(text) => match output_format {
                Some(f) => if color && grammar_known(spec_extension_of(f)) {
                    r matches Ok(out) && out@ == encode_utf8(
                        spec_highlighted_text(spec_extension_of(f), text),
                    )
                } else if color {
                    r matches Ok(out) && out@ == encode_utf8(text) + encode_utf8("\x1b[0m"@)
                } else {
                    r matches Ok(out) && out@ == encode_utf8(text)
                },
                None => r matches Ok(out) && out@ == encode_utf8(text),
            },
        },
{
    let text = match render_outputs(outputs, output_format, pretty) {
        Ok(t) => t,
        Err(e) => {
            return Err(e);
        },
    };
    match output_format {
        Some(format) => {
            if color {
                let mut writer = Writer::new(format);
                writer.write(text.as_str().as_bytes());
                proof {
                    assert(writer.buf@ =~= encode_utf8(text@));
                    vstd::utf8::encode_utf8_valid_utf8(text@);
                    vstd::utf8::encode_utf8_decode_utf8(text@);
                }
                match writer.write_highlight(styles) {
                    Ok(out) => Ok(out),
                    Err(e) => {
                        // the buffer is the UTF-8 encoding of rendered text,
                        // so the invalid-text path cannot be taken
                        proof {
                            assert(false);
                        }
                        Err(e)
                    },
                }
            } else {
                Ok(text.as_str().as_bytes_vec())
            }
        },
        None => Ok(text.as_str().as_bytes_vec()),
    }
}

} // verus!

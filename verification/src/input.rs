use vstd::prelude::*;
use vstd::string::StringExecFns;

use crate::codec::spec_parse_index;
use crate::codec::spec_read_to_json;
use crate::errors::Error;
use crate::format::spec_format_of_extension;
use crate::format::FileFormat;

verus! {

/// The result of decoding one input: its documents as JSON texts, in stream
/// order, and the format they were decoded from.
pub struct JsonDocuments {
    pub jsons: Vec<String>,
    pub input_format: FileFormat,
}

impl JsonDocuments {
    /// Packs decoded documents with the format they came from.
    pub fn new(jsons: Vec<String>, input_format: FileFormat) -> (r: JsonDocuments)
        ensures
            r.jsons == jsons,
            r.input_format == input_format,
    {
        JsonDocuments { jsons, input_format }
    }
}

/// One input to the pipeline: its full content, the extension of the path it
/// came from (empty for a stream without a path), and the format the caller
/// declared, if any.
pub struct Input {
    pub content: Vec<u8>,
    pub ext: String,
    pub input_format: Option<FileFormat>,
}

/// What sniffing yields: every known decoder is tried in the fixed priority
/// order JSON, YAML, TOML, RON, and the first success wins. Bytes valid in
/// two formats therefore always resolve to the earlier one.
pub open spec fn spec_sniffed(bytes: Seq<u8>) -> Option<(FileFormat, Seq<Seq<char>>)> {
    if spec_read_to_json(FileFormat::Json, bytes) is Some {
        Some((FileFormat::Json, spec_read_to_json(FileFormat::Json, bytes)->Some_0))
    } else if spec_read_to_json(FileFormat::Yaml, bytes) is Some {
        Some((FileFormat::Yaml, spec_read_to_json(FileFormat::Yaml, bytes)->Some_0))
    } else if spec_read_to_json(FileFormat::Toml, bytes) is Some {
        Some((FileFormat::Toml, spec_read_to_json(FileFormat::Toml, bytes)->Some_0))
    } else if spec_read_to_json(FileFormat::Ron, bytes) is Some {
        Some((FileFormat::Ron, spec_read_to_json(FileFormat::Ron, bytes)->Some_0))
    } else {
        None
    }
}

/// Sniffing determinism: bytes that JSON accepts always sniff as JSON,
/// whatever other formats would also accept them — the priority order is
/// fixed.
pub proof fn lemma_sniff_prefers_json(bytes: Seq<u8>)
    requires
        spec_read_to_json(FileFormat::Json, bytes) is Some,
    ensures
        spec_sniffed(bytes) matches Some(fd) && fd.0 == FileFormat::Json && Some(fd.1)
            == spec_read_to_json(FileFormat::Json, bytes),
{
}

/// What decoding an input yields: a declared format wins, then a recognized
/// path extension; an unrecognized or missing extension falls through to
/// content sniffing.
pub open spec fn spec_read_docs(
    content: Seq<u8>,
    ext: Seq<char>,
    flag: Option<FileFormat>,
) -> Option<(FileFormat, Seq<Seq<char>>)> {
    match flag {
        Some(f) => match spec_read_to_json(f, content) {
            Some(d) => Some((f, d)),
            None => None,
        },
        None => match spec_format_of_extension(ext) {
            Some(f) => match spec_read_to_json(f, content) {
                Some(d) => Some((f, d)),
                None => None,
            },
            None => spec_sniffed(content),
        },
    }
}

impl Input {
    /// Decodes this input into its documents, resolving the format as
    /// `spec_read_docs` says: declared flag first, then a recognized
    /// extension, and otherwise content sniffing.
    pub fn read_to_docs(&self) -> (r: Result<JsonDocuments, Error>)
        ensures
            r matches Ok(d) ==> spec_read_docs(self.content@, self.ext@, self.input_format)
                == Some((d.input_format, d.jsons.deep_view())),
            r is Ok <==> spec_read_docs(self.content@, self.ext@, self.input_format) is Some,
            r matches Err(e) ==> match self.input_format {
                Some(f) => e matches Error::Parse { index } && index == spec_parse_index(
                    f,
                    self.content@,
                ),
                None => match spec_format_of_extension(self.ext@) {
                    Some(f) => e matches Error::Parse { index } && index == spec_parse_index(
                        f,
                        self.content@,
                    ),
                    None => e is Unrecognized,
                },
            },
    {
        if let Some(format) = self.input_format {
            return match format.read_to_json(&self.content) {
                Ok(jsons) => Ok(JsonDocuments::new(jsons, format)),
                Err(e) => Err(e),
            };
        }
        // a recognized extension decides; an unrecognized or missing one
        // falls through to content sniffing
        if let Ok(format) = FileFormat::from_extension(self.ext.as_str()) {
            return match format.read_to_json(&self.content) {
                Ok(jsons) => Ok(JsonDocuments::new(jsons, format)),
                Err(e) => Err(e),
            };
        }
        // guess the format: first decoder to accept the content wins
        if let Ok(jsons) = FileFormat::Json.read_to_json(&self.content) {
            return Ok(JsonDocuments::new(jsons, FileFormat::Json));
        }
        if let Ok(jsons) = FileFormat::Yaml.read_to_json(&self.content) {
            return Ok(JsonDocuments::new(jsons, FileFormat::Yaml));
        }
        if let Ok(jsons) = FileFormat::Toml.read_to_json(&self.content) {
            return Ok(JsonDocuments::new(jsons, FileFormat::Toml));
        }
        if let Ok(jsons) = FileFormat::Ron.read_to_json(&self.content) {
            return Ok(JsonDocuments::new(jsons, FileFormat::Ron));
        }
        Err(Error::Unrecognized)
    }
}

/// The documents of all inputs, decoded in input order and concatenated;
/// `None` when any input fails to decode.
pub open spec fn spec_all_docs(inputs: Seq<Input>) -> Option<Seq<Seq<char>>>
    decreases inputs.len(),
{
    if inputs.len() == 0 {
        Some(Seq::empty())
    } else {
        let last = inputs.last();
        match (
            spec_all_docs(inputs.drop_last()),
            spec_read_docs(last.content@, last.ext@, last.input_format),
        ) {
            (Some(a), Some(fd)) => Some(a + fd.1),
            _ => None,
        }
    }
}

/// The documents joined with commas inside one JSON array.
pub open spec fn spec_joined(docs: Seq<Seq<char>>) -> Seq<char>
    decreases docs.len(),
{
    if docs.len() == 0 {
        Seq::empty()
    } else if docs.len() == 1 {
        docs[0]
    } else {
        spec_joined(docs.drop_last()) + ","@ + docs.last()
    }
}

/// What slurping yields: one JSON array holding every document of every
/// input, in input order.
pub open spec fn spec_slurped(docs: Seq<Seq<char>>) -> Seq<char> {
    "["@ + spec_joined(docs) + "]"@
}

/// When the input at position `i` fails to decode, the whole set has no
/// document list.
proof fn lemma_all_docs_fail(inputs: Seq<Input>, i: int)
    requires
        0 <= i < inputs.len(),
        spec_read_docs(inputs[i].content@, inputs[i].ext@, inputs[i].input_format) is None,
    ensures
        spec_all_docs(inputs) is None,
    decreases inputs.len(),
{
    if i == inputs.len() - 1 {
    } else {
        lemma_all_docs_fail(inputs.drop_last(), i);
    }
}

/// Concatenates every document of every input, in order, into one JSON array
/// document.
pub fn slurp(inputs: &Vec<Input>) -> (r: Result<String, Error>)
    ensures
        r matches Ok(s) ==> spec_all_docs(inputs@) matches Some(docs) && s@ == spec_slurped(
            docs,
        ),
        r is Ok <==> spec_all_docs(inputs@) is Some,
        r matches Err(e) ==> e is Parse || e is Unrecognized,
{
    let mut jsons: Vec<String> = Vec::new();
    let mut i: usize = 0;
    proof {
        assert(inputs@.subrange(0, 0) =~= Seq::<Input>::empty());
        assert(jsons.deep_view() =~= Seq::<Seq<char>>::empty());
    }
    while i < inputs.len()
        invariant
            i <= inputs@.len(),
            spec_all_docs(inputs@.subrange(0, i as int)) == Some(jsons.deep_view()),
        decreases inputs@.len() - i,
    {
        let ghost jv0 = jsons.deep_view();
        let mut docs = match inputs[i].read_to_docs() {
            Ok(d) => d,
            Err(e) => {
                proof {
                    lemma_all_docs_fail(inputs@, i as int);
                }
                return Err(e);
            },
        };
        let ghost dv = docs.jsons.deep_view();
        jsons.append(&mut docs.jsons);
        proof {
            let here = inputs@.subrange(0, i + 1);
            assert(here.drop_last() =~= inputs@.subrange(0, i as int));
            assert(here.last() == inputs@[i as int]);
            assert(jsons.deep_view() =~= jv0 + dv);
        }
        i = i + 1;
    }
    proof {
        assert(inputs@.subrange(0, inputs@.len() as int) =~= inputs@);
    }
    let mut out = String::from_str("[");
    let n = jsons.len();
    let ghost jv = jsons.deep_view();
    let mut k: usize = 0;
    proof {
        assert(out@ =~= "["@ + spec_joined(jv.subrange(0, 0)));
    }
    while k < n
        invariant
            k <= n,
            n == jsons.len(),
            jv == jsons.deep_view(),
            jv.len() == n,
            out@ == "["@ + spec_joined(jv.subrange(0, k as int)),
        decreases n - k,
    {
        let ghost out0 = out@;
        if k > 0 {
            out.append(",");
        }
        out.append(jsons[k].as_str());
        proof {
            let here = jv.subrange(0, k + 1);
            assert(here.drop_last() =~= jv.subrange(0, k as int));
            assert(here.last() == jv[k as int]);
            assert(jsons@[k as int]@ == jv[k as int]);
            if k == 0 {
                assert(here.len() == 1);
                assert(here[0] == jv[0]);
                assert(out@ =~= "["@ + spec_joined(here));
            } else {
                assert(out@ =~= "["@ + (spec_joined(jv.subrange(0, k as int)) + ","@ + jv[
                    k as int
                ]));
            }
        }
        k = k + 1;
    }
    proof {
        assert(jv.subrange(0, n as int) =~= jv);
    }
    out.append("]");
    proof {
        assert(out@ =~= spec_slurped(jv));
    }
    Ok(out)
}

} // verus!

use vstd::prelude::*;
use vstd::string::StringExecFns;

use crate::errors::Error;
use crate::format::FileFormat;

verus! {

// What each outside codec yields is a function of the bytes alone (the
// parsers and printers consult nothing else), but writing the grammars out
// here would restate whole format specifications. Each result is therefore
// given a name, and every contract below speaks through these names.
//
// A multi-document decode yields the documents found before the stream ends
// or a parse failure, each already printed as compact JSON text, and a flag
// that says the whole stream was decoded; on failure the count of decoded
// documents is the index of the document that failed.
/// What serde_json's stream deserializer yields on these bytes.
pub uninterp spec fn json_decoded(bytes: Seq<u8>) -> (Seq<Seq<char>>, bool);

/// What serde_yaml's multi-document deserializer, transcoded to JSON, yields
/// on these bytes.
pub uninterp spec fn yaml_decoded(bytes: Seq<u8>) -> (Seq<Seq<char>>, bool);

/// What ron's deserializer, transcoded to JSON, yields on these bytes.
pub uninterp spec fn ron_decoded(bytes: Seq<u8>) -> Option<Seq<char>>;

/// What toml's deserializer, transcoded to JSON, yields on these bytes.
pub uninterp spec fn toml_decoded(bytes: Seq<u8>) -> Option<Seq<char>>;

/// What serde_json's serializer emits for one JSON document, compact or
/// indented; `None` when the text is not a JSON value.
pub uninterp spec fn json_encoded(doc: Seq<char>, pretty: bool) -> Option<Seq<char>>;

/// What serde_yaml's serializer emits for one JSON document.
pub uninterp spec fn yaml_encoded(doc: Seq<char>) -> Option<Seq<char>>;

/// What ron's serializer emits for one JSON document.
pub uninterp spec fn ron_encoded(doc: Seq<char>, pretty: bool) -> Option<Seq<char>>;

/// What toml's serializer emits for one JSON document; `None` also when the
/// document's shape, such as a bare scalar, has no TOML representation.
pub uninterp spec fn toml_encoded(doc: Seq<char>, pretty: bool) -> Option<Seq<char>>;

/// Relies on `serde_json::Deserializer::from_slice` and its `StreamDeserializer`:
/// one `Value` per concatenated top-level JSON value, printed back with
/// `Value::to_string`, in stream order. A second component of `false` reports
/// a parse failure, with the documents decoded before it.
#[verifier::external_body]
fn json_decode_raw(input: &Vec<u8>) -> (r: (Vec<String>, bool))
    ensures
        r.0.deep_view() == json_decoded(input@).0,
        r.1 == json_decoded(input@).1,
{
    let mut docs: Vec<String> = Vec::new();
    for doc in serde_json::Deserializer::from_slice(input).into_iter::<serde_json::Value>() {
        match doc {
            Ok(v) => docs.push(v.to_string()),
            Err(_) => return (docs, false),
        }
    }
    (docs, true)
}

/// Relies on `serde_yaml::Deserializer::from_slice`, which iterates over the
/// `---`-separated documents of the stream in order, and on
/// `serde_transcode::transcode` into a `serde_json::Serializer`, which turns
/// each document into compact JSON. A second component of `false` reports a
/// parse failure, with the documents decoded before it.
#[verifier::external_body]
fn yaml_decode_raw(input: &Vec<u8>) -> (r: (Vec<String>, bool))
    ensures
        r.0.deep_view() == yaml_decoded(input@).0,
        r.1 == yaml_decoded(input@).1,
{
    let mut docs: Vec<String> = Vec::new();
    for doc in serde_yaml::Deserializer::from_slice(input) {
        let mut buf: Vec<u8> = Vec::new();
        let mut ser = serde_json::Serializer::new(&mut buf);
        if serde_transcode::transcode(doc, &mut ser).is_err() {
            return (docs, false);
        }
        match String::from_utf8(buf) {
            Ok(s) => docs.push(s),
            Err(_) => return (docs, false),
        }
    }
    (docs, true)
}

/// Relies on `ron::Deserializer::from_bytes` and `serde_transcode::transcode`
/// into a `serde_json::Serializer`: the single RON document of the input as
/// compact JSON, or `None` when parsing fails.
#[verifier::external_body]
fn ron_decode_raw(input: &Vec<u8>) -> (r: Option<String>)
    ensures
        match ron_decoded(input@) {
            Some(d) => r matches Some(s) && s@ == d,
            None => r is None,
        },
{
    let mut de = match ron::Deserializer::from_bytes(input) {
        Ok(de) => de,
        Err(_) => return None,
    };
    let mut buf: Vec<u8> = Vec::new();
    let mut ser = serde_json::Serializer::new(&mut buf);
    if serde_transcode::transcode(&mut de, &mut ser).is_err() {
        return None;
    }
    String::from_utf8(buf).ok()
}

/// Relies on `toml::Deserializer::new` and `serde_transcode::transcode` into
/// a `serde_json::Serializer`: the single TOML document of the input as
/// compact JSON, or `None` when the input is not UTF-8 or parsing fails.
#[verifier::external_body]
fn toml_decode_raw(input: &Vec<u8>) -> (r: Option<String>)
    ensures
        match toml_decoded(input@) {
            Some(d) => r matches Some(s) && s@ == d,
            None => r is None,
        },
{
    let text = match std::str::from_utf8(input) {
        Ok(t) => t,
        Err(_) => return None,
    };
    let de = toml::Deserializer::new(text);
    let mut buf: Vec<u8> = Vec::new();
    let mut ser = serde_json::Serializer::new(&mut buf);
    if serde_transcode::transcode(de, &mut ser).is_err() {
        return None;
    }
    String::from_utf8(buf).ok()
}

/// Relies on `serde_json::Deserializer::from_str` and
/// `serde_transcode::transcode` into a compact or pretty
/// `serde_json::Serializer`: the document re-printed, or `None` when the text
/// is not a JSON value.
#[verifier::external_body]
fn json_encode_raw(value: &String, pretty: bool) -> (r: Option<String>)
    ensures
        match json_encoded(value@, pretty) {
            Some(e) => r matches Some(s) && s@ == e,
            None => r is None,
        },
{
    let mut de = serde_json::Deserializer::from_str(value);
    let mut buf: Vec<u8> = Vec::new();
    let ok = if pretty {
        let mut ser = serde_json::Serializer::pretty(&mut buf);
        serde_transcode::transcode(&mut de, &mut ser).is_ok()
    } else {
        let mut ser = serde_json::Serializer::new(&mut buf);
        serde_transcode::transcode(&mut de, &mut ser).is_ok()
    };
    if !ok {
        return None;
    }
    String::from_utf8(buf).ok()
}

/// Relies on `serde_transcode::transcode` from a JSON deserializer into
/// `serde_yaml::Serializer`: the document as YAML, or `None` when the text is
/// not a JSON value.
#[verifier::external_body]
fn yaml_encode_raw(value: &String) -> (r: Option<String>)
    ensures
        match yaml_encoded(value@) {
            Some(e) => r matches Some(s) && s@ == e,
            None => r is None,
        },
{
    let mut de = serde_json::Deserializer::from_str(value);
    let mut buf: Vec<u8> = Vec::new();
    let mut ser = serde_yaml::Serializer::new(&mut buf);
    if serde_transcode::transcode(&mut de, &mut ser).is_err() {
        return None;
    }
    String::from_utf8(buf).ok()
}

/// Relies on `ron::Serializer::with_options`, with the default pretty
/// configuration when asked for, fed through `serde_transcode::transcode`
/// from a JSON deserializer: the document as RON, or `None` when the text is
/// not a JSON value or RON cannot represent it.
#[verifier::external_body]
fn ron_encode_raw(value: &String, pretty: bool) -> (r: Option<String>)
    ensures
        match ron_encoded(value@, pretty) {
            Some(e) => r matches Some(s) && s@ == e,
            None => r is None,
        },
{
    let mut de = serde_json::Deserializer::from_str(value);
    let conf = if pretty { Some(ron::ser::PrettyConfig::default()) } else { None };
    let mut buf: Vec<u8> = Vec::new();
    let mut ser = match ron::Serializer::with_options(&mut buf, conf, ron::Options::default()) {
        Ok(ser) => ser,
        Err(_) => return None,
    };
    if serde_transcode::transcode(&mut de, &mut ser).is_err() {
        return None;
    }
    String::from_utf8(buf).ok()
}

/// Relies on `toml::Serializer::new` and `toml::Serializer::pretty` fed
/// through `serde_transcode::transcode` from a JSON deserializer: the
/// document as TOML, or `None` when the text is not a JSON value or its
/// shape, such as a bare scalar, has no TOML representation.
#[verifier::external_body]
fn toml_encode_raw(value: &String, pretty: bool) -> (r: Option<String>)
    ensures
        match toml_encoded(value@, pretty) {
            Some(e) => r matches Some(s) && s@ == e,
            None => r is None,
        },
{
    let mut de = serde_json::Deserializer::from_str(value);
    let mut out = String::new();
    let ok = if pretty {
        serde_transcode::transcode(&mut de, toml::Serializer::pretty(&mut out)).is_ok()
    } else {
        serde_transcode::transcode(&mut de, toml::Serializer::new(&mut out)).is_ok()
    };
    if ok {
        Some(out)
    } else {
        None
    }
}

/// What decoding a byte stream of format `f` yields: one JSON text per
/// document, in stream order. An empty stream decodes to no documents for
/// the multi-document formats; single-document formats yield exactly one
/// document and reject an empty stream, which has no document at all.
pub open spec fn spec_read_to_json(f: FileFormat, bytes: Seq<u8>) -> Option<Seq<Seq<char>>> {
    match f {
        FileFormat::Json => if json_decoded(bytes).1 {
            Some(json_decoded(bytes).0)
        } else {
            None
        },
        FileFormat::Yaml => if bytes.len() == 0 {
            Some(Seq::empty())
        } else if yaml_decoded(bytes).1 {
            Some(yaml_decoded(bytes).0)
        } else {
            None
        },
        FileFormat::Ron => if bytes.len() == 0 {
            None
        } else {
            match ron_decoded(bytes) {
                Some(d) => Some(seq![d]),
                None => None,
            }
        },
        FileFormat::Toml => if bytes.len() == 0 {
            None
        } else {
            match toml_decoded(bytes) {
                Some(d) => Some(seq![d]),
                None => None,
            }
        },
    }
}

/// The position in the stream of the document a failed decode stopped at:
/// the count of documents already decoded, and the only document for a
/// single-document format.
pub open spec fn spec_parse_index(f: FileFormat, bytes: Seq<u8>) -> nat {
    match f {
        FileFormat::Json => json_decoded(bytes).0.len(),
        FileFormat::Yaml => yaml_decoded(bytes).0.len(),
        FileFormat::Ron => 0,
        FileFormat::Toml => 0,
    }
}

impl FileFormat {
    /// Decodes a byte stream of this format into its documents, each printed
    /// as compact JSON, in stream order. A parse failure carries the index of
    /// the document that failed.
    pub fn read_to_json(self, input: &Vec<u8>) -> (r: Result<Vec<String>, Error>)
        ensures
            r matches Ok(docs) ==> spec_read_to_json(self, input@) == Some(docs.deep_view()),
            r is Ok <==> spec_read_to_json(self, input@) is Some,
            r matches Err(e) ==> e matches Error::Parse { index } && index == spec_parse_index(
                self,
                input@,
            ),
    {
        match self {
            FileFormat::Json => {
                let (docs, ok) = json_decode_raw(input);
                if ok {
                    Ok(docs)
                } else {
                    Err(Error::Parse { index: docs.len() })
                }
            },
            FileFormat::Yaml => {
                if input.len() == 0 {
                    let docs: Vec<String> = Vec::new();
                    proof {
                        assert(docs.deep_view() =~= Seq::<Seq<char>>::empty());
                    }
                    return Ok(docs);
                }
                let (docs, ok) = yaml_decode_raw(input);
                if ok {
                    Ok(docs)
                } else {
                    Err(Error::Parse { index: docs.len() })
                }
            },
            FileFormat::Ron => {
                if input.len() == 0 {
                    return Err(Error::Parse { index: 0 });
                }
                match ron_decode_raw(input) {
                    Some(doc) => {
                        let mut docs: Vec<String> = Vec::new();
                        let ghost d = doc@;
                        docs.push(doc);
                        proof {
                            assert(docs.deep_view() =~= seq![d]);
                        }
                        Ok(docs)
                    },
                    None => Err(Error::Parse { index: 0 }),
                }
            },
            FileFormat::Toml => {
                if input.len() == 0 {
                    return Err(Error::Parse { index: 0 });
                }
                match toml_decode_raw(input) {
                    Some(doc) => {
                        let mut docs: Vec<String> = Vec::new();
                        let ghost d = doc@;
                        docs.push(doc);
                        proof {
                            assert(docs.deep_view() =~= seq![d]);
                        }
                        Ok(docs)
                    },
                    None => Err(Error::Parse { index: 0 }),
                }
            },
        }
    }
}

/// The encoding of one document in the target format.
pub open spec fn spec_encoded_doc(f: FileFormat, doc: Seq<char>, pretty: bool) -> Option<
    Seq<char>,
> {
    match f {
        FileFormat::Json => json_encoded(doc, pretty),
        FileFormat::Yaml => yaml_encoded(doc),
        FileFormat::Ron => ron_encoded(doc, pretty),
        FileFormat::Toml => toml_encoded(doc, pretty),
    }
}

/// The frame around one encoded document: every JSON and RON value ends with
/// a newline, and a YAML document opens with a `---` separator exactly when
/// the stream holds more than one document.
pub open spec fn spec_framed_doc(f: FileFormat, enc: Seq<char>, multi: bool) -> Seq<char> {
    match f {
        FileFormat::Json => enc + "\n"@,
        FileFormat::Yaml => if multi {
            "---\n"@ + enc
        } else {
            enc
        },
        FileFormat::Ron => enc + "\n"@,
        FileFormat::Toml => enc,
    }
}

/// The full output stream for `docs` in format `f`: each document encoded and
/// framed, concatenated in order; `None` when some document cannot be
/// encoded.
pub open spec fn spec_write_docs(
    f: FileFormat,
    docs: Seq<Seq<char>>,
    pretty: bool,
    multi: bool,
) -> Option<Seq<char>>
    decreases docs.len(),
{
    if docs.len() == 0 {
        Some(Seq::empty())
    } else {
        match (
            spec_write_docs(f, docs.drop_last(), pretty, multi),
            spec_encoded_doc(f, docs.last(), pretty),
        ) {
            (Some(prefix), Some(enc)) => Some(prefix + spec_framed_doc(f, enc, multi)),
            _ => None,
        }
    }
}

/// What `write_format` emits when the document count is representable.
pub open spec fn spec_write_format(f: FileFormat, docs: Seq<Seq<char>>, pretty: bool) -> Option<
    Seq<char>,
> {
    spec_write_docs(f, docs, pretty, docs.len() > 1)
}

/// A stream with an unencodable document has no encoding at all.
proof fn lemma_write_docs_fail(f: FileFormat, docs: Seq<Seq<char>>, pretty: bool, multi: bool, i: int)
    requires
        0 <= i < docs.len(),
        spec_encoded_doc(f, docs[i], pretty) is None,
    ensures
        spec_write_docs(f, docs, pretty, multi) is None,
    decreases docs.len(),
{
    if i == docs.len() - 1 {
    } else {
        lemma_write_docs_fail(f, docs.drop_last(), pretty, multi, i);
    }
}

/// Order preservation on re-encoding: a two-document YAML stream opens every
/// document with its `---` separator, first document first — the leading
/// separator appears exactly because the count is above one.
pub proof fn lemma_yaml_two_document_frame(d0: Seq<char>, d1: Seq<char>, pretty: bool)
    requires
        yaml_encoded(d0) is Some,
        yaml_encoded(d1) is Some,
    ensures
        spec_write_format(FileFormat::Yaml, seq![d0, d1], pretty) == Some(
            "---\n"@ + yaml_encoded(d0)->Some_0 + "---\n"@ + yaml_encoded(d1)->Some_0,
        ),
        spec_write_format(FileFormat::Yaml, seq![d0], pretty) == Some(yaml_encoded(d0)->Some_0),
{
    let e0 = yaml_encoded(d0)->Some_0;
    let e1 = yaml_encoded(d1)->Some_0;
    let two = seq![d0, d1];
    let one = seq![d0];
    let none = Seq::<Seq<char>>::empty();
    assert(two.drop_last() =~= one);
    assert(one.drop_last() =~= none);
    assert(one.last() == d0);
    assert(two.last() == d1);
    assert(spec_write_docs(FileFormat::Yaml, none, pretty, true) == Some(Seq::<char>::empty()));
    assert(spec_write_docs(FileFormat::Yaml, one, pretty, true) == Some(
        Seq::<char>::empty() + ("---\n"@ + e0),
    ));
    assert(spec_write_docs(FileFormat::Yaml, two, pretty, true) == Some(
        (Seq::<char>::empty() + ("---\n"@ + e0)) + ("---\n"@ + e1),
    ));
    assert((Seq::<char>::empty() + ("---\n"@ + e0)) + ("---\n"@ + e1) =~= "---\n"@ + e0 + "---\n"@
        + e1);
    assert(spec_write_docs(FileFormat::Yaml, none, pretty, false) == Some(Seq::<char>::empty()));
    assert(spec_write_docs(FileFormat::Yaml, one, pretty, false) == Some(
        Seq::<char>::empty() + e0,
    ));
    assert(Seq::<char>::empty() + e0 =~= e0);
}

impl FileFormat {
    /// Encodes the given JSON documents as one output stream in this format.
    /// A format without multi-document output refuses more than one document
    /// rather than truncating.
    pub fn write_format(self, values: &Vec<String>, pretty: bool) -> (r: Result<String, Error>)
        ensures
            !self.multi_document() && values@.len() > 1 <==> (r matches Err(e) && e
                is UnsupportedMultiDocument),
            r matches Ok(out) ==> spec_write_format(self, values.deep_view(), pretty) == Some(
                out@,
            ),
            (self.multi_document() || values@.len() <= 1) ==> match spec_write_format(
                self,
                values.deep_view(),
                pretty,
            ) {
                Some(s) => r matches Ok(out) && out@ == s,
                None => r matches Err(e) && e is EncodeFailed,
            },
            match r {
                Err(Error::EncodeFailed { index }) => index < values@.len() && spec_encoded_doc(
                    self,
                    values.deep_view()[index as int],
                    pretty,
                ) is None && spec_write_docs(
                    self,
                    values.deep_view().subrange(0, index as int),
                    pretty,
                    values@.len() > 1,
                ) is Some,
                _ => true,
            },
    {
        if (self == FileFormat::Ron || self == FileFormat::Toml) && values.len() > 1 {
            return Err(Error::UnsupportedMultiDocument);
        }
        let multi = values.len() > 1;
        let ghost dv = values.deep_view();
        let mut out = String::new();
        let mut idx: usize = 0;
        proof {
            assert(dv.subrange(0, 0) =~= Seq::<Seq<char>>::empty());
        }
        while idx < values.len()
            invariant
                idx <= values@.len(),
                dv == values.deep_view(),
                dv.len() == values@.len(),
                multi == (values@.len() > 1),
                self.multi_document() || values@.len() <= 1,
                spec_write_docs(self, dv.subrange(0, idx as int), pretty, multi) == Some(out@),
            decreases values@.len() - idx,
        {
            let ghost out0 = out@;
            let enc_opt = match self {
                FileFormat::Json => json_encode_raw(&values[idx], pretty),
                FileFormat::Yaml => yaml_encode_raw(&values[idx]),
                FileFormat::Ron => ron_encode_raw(&values[idx], pretty),
                FileFormat::Toml => toml_encode_raw(&values[idx], pretty),
            };
            proof {
                assert(values@[idx as int]@ == dv[idx as int]);
            }
            let enc = match enc_opt {
                Some(enc) => enc,
                None => {
                    proof {
                        lemma_write_docs_fail(self, dv, pretty, multi, idx as int);
                    }
                    return Err(Error::EncodeFailed { index: idx });
                },
            };
            match self {
                FileFormat::Json => {
                    out.append(enc.as_str());
                    out.append("\n");
                },
                FileFormat::Yaml => {
                    if multi {
                        out.append("---\n");
                        out.append(enc.as_str());
                    } else {
                        out.append(enc.as_str());
                    }
                },
                FileFormat::Ron => {
                    out.append(enc.as_str());
                    out.append("\n");
                },
                FileFormat::Toml => {
                    out.append(enc.as_str());
                },
            }
            proof {
                let prefix = dv.subrange(0, idx as int);
                let here = dv.subrange(0, idx + 1);
                assert(here.drop_last() =~= prefix);
                assert(here.last() == dv[idx as int]);
                let framed = spec_framed_doc(self, enc@, multi);
                assert(out@ =~= out0 + framed);
            }
            idx = idx + 1;
        }
        proof {
            assert(dv.subrange(0, dv.len() as int) =~= dv);
        }
        Ok(out)
    }
}

} // verus!

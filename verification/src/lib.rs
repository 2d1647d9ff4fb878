//! A multi-format document pipeline: detects the format of structured input
//! (JSON, YAML, TOML or RON), splits it into documents, feeds each document
//! through a query engine, and re-emits the results in a chosen format, with
//! optional raw-string unwrapping and terminal syntax highlighting.

mod codec;
mod errors;
mod format;
mod highlight;
mod input;
mod pipeline;
mod text;

pub use codec::json_decoded;
pub use codec::json_encoded;
pub use codec::ron_decoded;
pub use codec::ron_encoded;
pub use codec::spec_encoded_doc;
pub use codec::spec_framed_doc;
pub use codec::spec_parse_index;
pub use codec::spec_read_to_json;
pub use codec::spec_write_docs;
pub use codec::lemma_yaml_two_document_frame;
pub use codec::spec_write_format;
pub use codec::toml_decoded;
pub use codec::toml_encoded;
pub use codec::yaml_decoded;
pub use codec::yaml_encoded;
pub use errors::Error;
pub use format::ext_from_path;
pub use format::lemma_extension_round_trip;
pub use format::spec_ext_of;
pub use format::spec_extension_of;
pub use format::spec_format_of_extension;
pub use format::FileFormat;
pub use highlight::grammar_known;
pub use highlight::highlighted_of;
pub use highlight::spec_highlighted_lines;
pub use highlight::spec_highlighted_text;
pub use highlight::spec_lines;
pub use highlight::Styles;
pub use highlight::Writer;
pub use input::slurp;
pub use input::spec_all_docs;
pub use input::spec_joined;
pub use input::lemma_sniff_prefers_json;
pub use input::spec_read_docs;
pub use input::spec_slurped;
pub use input::spec_sniffed;
pub use input::Input;
pub use input::JsonDocuments;
pub use pipeline::emit_output;
pub use pipeline::render_outputs;
pub use pipeline::spec_plan_output;
pub use pipeline::spec_raw_rendered;
pub use pipeline::spec_rendered;
pub use pipeline::spec_should_color;
pub use pipeline::Args;
pub use text::lemma_pop_quotes_non_string;
pub use text::pop_quotes;
pub use text::spec_pop_quotes;
pub use text::spec_trim;
pub use text::spec_unescape_quotes;

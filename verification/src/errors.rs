use vstd::prelude::*;

verus! {

/// Every failure the pipeline can report. Each stage surfaces exactly one of
/// these and aborts the whole run; there is no partial-success mode.
#[derive(Debug)]
pub enum Error {
    /// The input path carries no usable file extension.
    NoExtension,
    /// The file extension matches no known format.
    UnknownExtension,
    /// Content sniffing exhausted every known format without a successful parse.
    Unrecognized,
    /// The bytes are malformed for the chosen format; `index` is the position
    /// in the stream of the document that failed.
    Parse { index: usize },
    /// The target format cannot represent more than one document.
    UnsupportedMultiDocument,
    /// The target format cannot represent the value of the document at `index`.
    EncodeFailed { index: usize },
    /// The engine rejected the program.
    EngineCompile { message: String },
    /// The engine failed while running the document at `index`.
    Engine { index: usize, message: String },
    /// Raw output and an explicit output format exclude each other.
    Config,
    /// Highlighting needs text, and the buffered output is not valid text.
    InvalidText,
}

} // verus!

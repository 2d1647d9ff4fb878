use vstd::prelude::*;

use crate::errors::Error;
use crate::text::chars_vec;
use crate::text::str_eq;
use crate::text::string_from_chars;

verus! {

/// The closed set of serialization formats the pipeline understands.
#[derive(Copy, Clone, Debug, PartialEq, Eq, Structural)]
pub enum FileFormat {
    Json,
    Yaml,
    Ron,
    Toml,
}

impl FileFormat {
    /// Whether a stream of this format can hold several documents
    /// (JSON by concatenated top-level values, YAML by `---` separators).
    pub open spec fn multi_document(self) -> bool {
        self is Json || self is Yaml
    }
}

/// The format a file extension names, if any; `yml` and `jsonl` are the
/// documented aliases of `yaml` and `json`.
pub open spec fn spec_format_of_extension(ext: Seq<char>) -> Option<FileFormat> {
    if ext == "json"@ || ext == "jsonl"@ {
        Some(FileFormat::Json)
    } else if ext == "ron"@ {
        Some(FileFormat::Ron)
    } else if ext == "yaml"@ || ext == "yml"@ {
        Some(FileFormat::Yaml)
    } else if ext == "toml"@ {
        Some(FileFormat::Toml)
    } else {
        None
    }
}

/// The canonical extension of each format.
pub open spec fn spec_extension_of(f: FileFormat) -> Seq<char> {
    match f {
        FileFormat::Json => "json"@,
        FileFormat::Yaml => "yaml"@,
        FileFormat::Ron => "ron"@,
        FileFormat::Toml => "toml"@,
    }
}

impl FileFormat {
    /// Resolves a file extension to its format.
    pub fn from_extension(ext: &str) -> (r: Result<FileFormat, Error>)
        ensures
            r matches Ok(f) ==> spec_format_of_extension(ext@) == Some(f),
            r is Ok <==> spec_format_of_extension(ext@) is Some,
            r matches Err(e) ==> e is UnknownExtension,
    {
        if str_eq(ext, "json") || str_eq(ext, "jsonl") {
            Ok(FileFormat::Json)
        } else if str_eq(ext, "ron") {
            Ok(FileFormat::Ron)
        } else if str_eq(ext, "yaml") || str_eq(ext, "yml") {
            Ok(FileFormat::Yaml)
        } else if str_eq(ext, "toml") {
            Ok(FileFormat::Toml)
        } else {
            Err(Error::UnknownExtension)
        }
    }

    /// The canonical extension of this format, the one `from_extension`
    /// resolves back to it.
    pub fn to_extension(self) -> (r: &'static str)
        ensures
            r@ == spec_extension_of(self),
    {
        match self {
            FileFormat::Json => "json",
            FileFormat::Yaml => "yaml",
            FileFormat::Ron => "ron",
            FileFormat::Toml => "toml",
        }
    }
}

/// Resolving a format's canonical extension yields that format again.
pub proof fn lemma_extension_round_trip(f: FileFormat)
    ensures
        spec_format_of_extension(spec_extension_of(f)) == Some(f),
{
    reveal_strlit("json");
    reveal_strlit("jsonl");
    reveal_strlit("ron");
    reveal_strlit("yaml");
    reveal_strlit("yml");
    reveal_strlit("toml");
    match f {
        FileFormat::Json => {
        },
        FileFormat::Yaml => {
            assert("yaml"@[0] == 'y' && "json"@[0] == 'j' && "ron"@[0] == 'r');
            assert("yaml"@.len() == 4 && "jsonl"@.len() == 5);
        },
        FileFormat::Ron => {
            assert("ron"@.len() == 3 && "json"@.len() == 4 && "jsonl"@.len() == 5);
        },
        FileFormat::Toml => {
            assert("toml"@[0] == 't' && "json"@[0] == 'j' && "yaml"@[0] == 'y');
            assert("toml"@.len() == 4 && "jsonl"@.len() == 5 && "ron"@.len() == 3 && "yml"@.len()
                == 3);
        },
    }
}

/// The extension of a path: the characters after the last `.` of the final
/// path segment, provided that dot is neither absent nor the segment's first
/// character.
pub open spec fn spec_ext_of(path: Seq<char>) -> Option<Seq<char>>
    decreases path.len(),
{
    if path.len() == 0 {
        None
    } else {
        let i = path.len() - 1;
        if path[i as int] == '/' {
            None
        } else if path[i as int] == '.' {
            if i == 0 || path[i - 1] == '/' {
                None
            } else {
                Some(Seq::empty())
            }
        } else {
            match spec_ext_of(path.drop_last()) {
                None => None,
                Some(e) => Some(e.push(path[i as int])),
            }
        }
    }
}

/// Extracts the file extension from a path.
pub fn ext_from_path(path: &str) -> (r: Result<String, Error>)
    ensures
        r matches Ok(e) ==> spec_ext_of(path@) == Some(e@),
        r is Ok <==> spec_ext_of(path@) is Some,
        r matches Err(e) ==> e is NoExtension,
{
    let cv = chars_vec(path);
    let n = cv.len();
    let mut i: usize = n;
    proof {
        assert(path@.subrange(0, n as int) =~= path@);
        if spec_ext_of(path@) is Some {
            let e = spec_ext_of(path@)->Some_0;
            assert(e + path@.subrange(n as int, n as int) =~= e);
        }
    }
    loop
        invariant
            cv@ == path@,
            n == cv.len(),
            i <= n,
            spec_ext_of(path@) matches Some(e) ==> spec_ext_of(path@.subrange(0, i as int))
                matches Some(p) && e == p + path@.subrange(i as int, n as int),
            spec_ext_of(path@) is None ==> spec_ext_of(path@.subrange(0, i as int)) is None,
        ensures
            i <= n,
            spec_ext_of(path@) matches Some(e) ==> spec_ext_of(path@.subrange(0, i as int))
                matches Some(p) && e == p + path@.subrange(i as int, n as int),
            spec_ext_of(path@) is None ==> spec_ext_of(path@.subrange(0, i as int)) is None,
            i == 0 || path@[i - 1] == '/' || path@[i - 1] == '.',
        decreases i,
    {
        assert(path@.subrange(0, i as int).len() == i as int);
        if i == 0 {
            break ;
        }
        let c = cv[i - 1];
        proof {
            assert(path@.subrange(0, i as int).drop_last() =~= path@.subrange(0, i - 1));
            assert(path@.subrange(0, i as int).last() == path@[i - 1]);
        }
        if c == '/' {
            break ;
        }
        if c == '.' {
            break ;
        }
        proof {
            if spec_ext_of(path@.subrange(0, i - 1)) is Some {
                let p = spec_ext_of(path@.subrange(0, i - 1))->Some_0;
                assert(p.push(path@[i - 1]) + path@.subrange(i as int, n as int) =~= p + path@
                    .subrange(i - 1, n as int));
            }
        }
        i = i - 1;
    }
    proof {
        assert(path@.subrange(0, i as int).len() == i as int);
        if i > 0 {
            assert(path@.subrange(0, i as int).last() == path@[i - 1]);
            if i >= 2 {
                assert(path@.subrange(0, i as int)[i - 2] == path@[i - 2]);
            }
        }
    }
    if i == 0 {
        return Err(Error::NoExtension);
    }
    let c = cv[i - 1];
    if c != '.' {
        // the loop only stops at a separator or a dot
        return Err(Error::NoExtension);
    }
    // the dot must not open the final path segment
    if i == 1 || cv[i - 2] == '/' {
        return Err(Error::NoExtension);
    }
    let mut ext: Vec<char> = Vec::new();
    let mut j: usize = i;
    while j < n
        invariant
            cv@ == path@,
            n == cv.len(),
            i <= j <= n,
            ext@ == path@.subrange(i as int, j as int),
        decreases n - j,
    {
        ext.push(cv[j]);
        assert(ext@ =~= path@.subrange(i as int, j + 1 as int));
        j = j + 1;
    }
    proof {
        if spec_ext_of(path@.subrange(0, i as int)) is Some {
            let p = spec_ext_of(path@.subrange(0, i as int))->Some_0;
            assert(p =~= Seq::<char>::empty());
            assert(Seq::<char>::empty() + path@.subrange(i as int, n as int) =~= path@.subrange(
                i as int,
                n as int,
            ));
        }
    }
    Ok(string_from_chars(&ext))
}

} // verus!

//! Rendering documents of an extended markup dialect as LaTeX. Inline content
//! is formatted by an outside converter that knows nothing of citations, so
//! each citation travels through it as a placeholder token and is put back
//! afterwards.

use vstd::prelude::*;
use vstd::string::StringExecFns;

pub mod assemble;
pub mod bib_parser;
pub mod citations;
pub mod document;
pub mod error;
pub mod explore;
pub mod fields;
pub mod node;
pub mod pandoc;
pub mod segment;
pub mod strings;
pub mod text;

verus! {

/// The name of the output file: the stem of the input file's name, or
/// `output` where it has none, with the extension `tex`.
pub open spec fn output_name(stem: Option<Seq<char>>) -> Seq<char> {
    match stem {
        Some(stem) => stem + ".tex"@,
        None => "output.tex"@,
    }
}

/// What an optional string slice holds.
pub open spec fn stem_view(stem: Option<&str>) -> Option<Seq<char>> {
    match stem {
        Some(s) => Some(s@),
        None => None,
    }
}

/// The name of the output file for an input file whose name has the stem
/// `stem`.
pub fn typ2tex(stem: Option<&str>) -> (name: String)
    ensures
        name@ == output_name(stem_view(stem)),
{
    match stem {
        Some(stem) => {
            let mut name = String::from_str(stem);
            name.append(".tex");
            name
        },
        None => String::from_str("output.tex"),
    }
}

} // verus!

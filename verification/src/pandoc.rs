//! What is made of the converter's output: the Greek letters that it leaves
//! in the text become commands, and what the converter process left behind
//! becomes a converted text or a failure.

use vstd::prelude::*;
use vstd::string::StringExecFns;
use vstd::std_specs::iter::IteratorSpec;
use vstd::utf8::{decode_utf8, valid_utf8};
use crate::document::text_of;
use crate::strings::{trim_end, trimmed_end};
use crate::text::reply_view;

verus! {

/// The command that stands for a Greek letter, or nothing for any other
/// character.
pub open spec fn tex_command(c: char) -> Option<Seq<char>> {
    match c {
        'α' => Some("\\alpha"@),
        'β' => Some("\\beta"@),
        'γ' => Some("\\gamma"@),
        'δ' => Some("\\delta"@),
        'ε' => Some("\\varepsilon"@),
        'ζ' => Some("\\zeta"@),
        'η' => Some("\\eta"@),
        'θ' => Some("\\theta"@),
        'ι' => Some("\\iota"@),
        'κ' => Some("\\kappa"@),
        'λ' => Some("\\lambda"@),
        'μ' => Some("\\mu"@),
        'ν' => Some("\\nu"@),
        'ξ' => Some("\\xi"@),
        'ο' => Some("\\omicron"@),
        'π' => Some("\\pi"@),
        'ρ' => Some("\\rho"@),
        'σ' => Some("\\sigma"@),
        'τ' => Some("\\tau"@),
        'υ' => Some("\\upsilon"@),
        'φ' => Some("\\varphi"@),
        'χ' => Some("\\chi"@),
        'ψ' => Some("\\psi"@),
        'ω' => Some("\\omega"@),
        'Α' => Some("\\Alpha"@),
        'Β' => Some("\\Beta"@),
        'Γ' => Some("\\Gamma"@),
        'Δ' => Some("\\Delta"@),
        'Ε' => Some("\\Epsilon"@),
        'Ζ' => Some("\\Zeta"@),
        'Η' => Some("\\Eta"@),
        'Θ' => Some("\\Theta"@),
        'Ι' => Some("\\Iota"@),
        'Κ' => Some("\\Kappa"@),
        'Λ' => Some("\\Lambda"@),
        'Μ' => Some("\\Mu"@),
        'Ν' => Some("\\Nu"@),
        'Ξ' => Some("\\Xi"@),
        'Ο' => Some("0"@),
        'Π' => Some("\\Pi"@),
        'Ρ' => Some("\\Rho"@),
        'Σ' => Some("\\Sigma"@),
        'Τ' => Some("\\Tau"@),
        'Υ' => Some("\\Upsilon"@),
        'Φ' => Some("\\Phi"@),
        'Χ' => Some("\\Chi"@),
        'Ψ' => Some("\\Psi"@),
        'Ω' => Some("\\Omega"@),
        'ϵ' => Some("\\epsilon"@),
        'ϑ' => Some("\\vartheta"@),
        'ϖ' => Some("\\varpi"@),
        'ϱ' => Some("\\varrho"@),
        'ς' => Some("\\varsigma"@),
        'ϕ' => Some("\\phi"@),
        _ => None,
    }
}

/// What stands for one character of the converter's output: the command of a
/// Greek letter, or the character itself.
pub open spec fn command_or_char(c: char) -> Seq<char> {
    match tex_command(c) {
        Some(command) => command,
        None => seq![c],
    }
}

/// The text with every Greek letter replaced by its command.
pub open spec fn with_commands(text: Seq<char>) -> Seq<char>
    decreases text.len(),
{
    if text.len() == 0 {
        Seq::empty()
    } else {
        with_commands(text.drop_last()) + command_or_char(text.last())
    }
}

/// What an optional string slice holds.
pub open spec fn command_view(command: Option<&'static str>) -> Option<Seq<char>> {
    match command {
        Some(s) => Some(s@),
        None => None,
    }
}

/// The command that stands for a Greek letter, or nothing for any other
/// character.
pub fn unicode2tex(c: char) -> (command: Option<&'static str>)
    ensures
        command_view(command) == tex_command(c),
{
    match c {
        'α' => Some("\\alpha"),
        'β' => Some("\\beta"),
        'γ' => Some("\\gamma"),
        'δ' => Some("\\delta"),
        'ε' => Some("\\varepsilon"),
        'ζ' => Some("\\zeta"),
        'η' => Some("\\eta"),
        'θ' => Some("\\theta"),
        'ι' => Some("\\iota"),
        'κ' => Some("\\kappa"),
        'λ' => Some("\\lambda"),
        'μ' => Some("\\mu"),
        'ν' => Some("\\nu"),
        'ξ' => Some("\\xi"),
        'ο' => Some("\\omicron"),
        'π' => Some("\\pi"),
        'ρ' => Some("\\rho"),
        'σ' => Some("\\sigma"),
        'τ' => Some("\\tau"),
        'υ' => Some("\\upsilon"),
        'φ' => Some("\\varphi"),
        'χ' => Some("\\chi"),
        'ψ' => Some("\\psi"),
        'ω' => Some("\\omega"),
        'Α' => Some("\\Alpha"),
        'Β' => Some("\\Beta"),
        'Γ' => Some("\\Gamma"),
        'Δ' => Some("\\Delta"),
        'Ε' => Some("\\Epsilon"),
        'Ζ' => Some("\\Zeta"),
        'Η' => Some("\\Eta"),
        'Θ' => Some("\\Theta"),
        'Ι' => Some("\\Iota"),
        'Κ' => Some("\\Kappa"),
        'Λ' => Some("\\Lambda"),
        'Μ' => Some("\\Mu"),
        'Ν' => Some("\\Nu"),
        'Ξ' => Some("\\Xi"),
        'Ο' => Some("0"),
        'Π' => Some("\\Pi"),
        'Ρ' => Some("\\Rho"),
        'Σ' => Some("\\Sigma"),
        'Τ' => Some("\\Tau"),
        'Υ' => Some("\\Upsilon"),
        'Φ' => Some("\\Phi"),
        'Χ' => Some("\\Chi"),
        'Ψ' => Some("\\Psi"),
        'Ω' => Some("\\Omega"),
        'ϵ' => Some("\\epsilon"),
        'ϑ' => Some("\\vartheta"),
        'ϖ' => Some("\\varpi"),
        'ϱ' => Some("\\varrho"),
        'ς' => Some("\\varsigma"),
        'ϕ' => Some("\\phi"),
        _ => None,
    }
}

/// The text with every Greek letter replaced by its command.
pub fn apply_unicode2tex(text: &str) -> (result: String)
    ensures
        result@ == with_commands(text@),
{
    let mut result = String::new();
    let it = text.chars();
    for c in iter: it
        invariant
            iter.seq() == text@,
            result@ == with_commands(text@.take(iter.index@)),
    {
        proof {
            assert(text@.take(iter.index@ + 1).drop_last() =~= text@.take(iter.index@));
        }
        match unicode2tex(c) {
            Some(command) => {
                result.append(command);
            },
            None => {
                result.push(c);
                proof {
                    assert(with_commands(text@.take(iter.index@)).push(c) =~= with_commands(
                        text@.take(iter.index@),
                    ) + seq![c]);
                }
            },
        }
    }
    proof {
        assert(text@.take(text@.len() as int) =~= text@);
    }
    result
}


/// The error of `String::from_utf8`.
#[verifier::external_type_specification]
#[verifier::external_body]
pub struct ExFromUtf8Error(std::string::FromUtf8Error);

/// `String::from_utf8` of std: it succeeds on the bytes that are valid UTF-8
/// and on no others, and the string then holds the characters that the bytes
/// encode.
pub assume_specification[ String::from_utf8 ](vec: Vec<u8>) -> (r: Result<
    String,
    std::string::FromUtf8Error,
>)
    ensures
        r is Ok <==> valid_utf8(vec@),
        r is Ok ==> r->Ok_0@ == decode_utf8(vec@),
;

/// The text that `String::from_utf8_lossy` of std reads from bytes: the
/// characters that they encode, with a replacement character for what is no
/// valid UTF-8.
pub uninterp spec fn lossy_text(bytes: Seq<u8>) -> Seq<char>;

/// `String::from_utf8_lossy` of std, as an owned string. The contract names
/// its result and says nothing more of it.
#[verifier::external_body]
fn decode_lossy(bytes: &Vec<u8>) -> (text: String)
    ensures
        text@ == lossy_text(bytes@),
{
    String::from_utf8_lossy(bytes).into_owned()
}

/// What is made of a converter run. `success` says whether the process
/// reported success, `output` is its output where that was valid UTF-8, and
/// `complaint` is what it wrote about its errors. A run that did not succeed
/// is a failure with the complaint; one whose output was no valid UTF-8 is a
/// failure too; any other gives its output without the white space at its
/// end and with commands for its Greek letters.
pub open spec fn converted(success: bool, output: Option<Seq<char>>, complaint: Seq<char>) -> Result<
    Seq<char>,
    Seq<char>,
> {
    if !success {
        Err("Pandoc conversion failed: "@ + complaint)
    } else {
        match output {
            Some(text) => Ok(with_commands(trimmed_end(text))),
            None => Err("Pandoc produced invalid UTF-8 output"@),
        }
    }
}

/// What bytes hold as text, where they are valid UTF-8.
pub open spec fn decoded(bytes: Seq<u8>) -> Option<Seq<char>> {
    if valid_utf8(bytes) {
        Some(decode_utf8(bytes))
    } else {
        None
    }
}

/// What is made of a converter run, given its output as text, or nothing
/// where it was no valid UTF-8.
pub fn converted_text(success: bool, output: Option<String>, complaint: &str) -> (reply: Result<
    String,
    String,
>)
    ensures
        reply_view(reply) == converted(success, text_of(output), complaint@),
{
    if !success {
        let mut reason = String::from_str("Pandoc conversion failed: ");
        reason.append(complaint);
        return Err(reason);
    }
    match output {
        Some(text) => {
            let trimmed = trim_end(text.as_str());
            Ok(apply_unicode2tex(trimmed.as_str()))
        },
        None => Err(String::from_str("Pandoc produced invalid UTF-8 output")),
    }
}

/// What is made of a converter run, given what the process left behind:
/// whether it reported success, the bytes of its output, and the bytes that
/// it wrote about its errors.
pub fn typst2latex(success: bool, stdout: Vec<u8>, stderr: Vec<u8>) -> (reply: Result<String, String>)
    ensures
        reply_view(reply) == converted(success, decoded(stdout@), lossy_text(stderr@)),
{
    let complaint = decode_lossy(&stderr);
    let output = match String::from_utf8(stdout) {
        Ok(text) => Some(text),
        Err(_) => None,
    };
    converted_text(success, output, complaint.as_str())
}

} // verus!

//! The rendered document: its header fields and its body, and how they fill a
//! template.

use vstd::prelude::*;
use crate::strings::{replace, replaced};

verus! {

/// A rendered document.
#[derive(Debug, Clone)]
pub struct Document {
    pub title: Option<String>,
    pub authors: Option<String>,
    pub date: Option<String>,
    pub abstractt: Option<String>,
    pub bibliography: Option<String>,
    pub content: String,
}

/// What a document holds, as mathematics.
pub struct DocumentView {
    pub title: Option<Seq<char>>,
    pub authors: Option<Seq<char>>,
    pub date: Option<Seq<char>>,
    pub abstractt: Option<Seq<char>>,
    pub bibliography: Option<Seq<char>>,
    pub content: Seq<char>,
}

/// What an optional string holds.
pub open spec fn text_of(field: Option<String>) -> Option<Seq<char>> {
    match field {
        Some(s) => Some(s@),
        None => None,
    }
}

impl View for Document {
    type V = DocumentView;

    open spec fn view(&self) -> DocumentView {
        DocumentView {
            title: text_of(self.title),
            authors: text_of(self.authors),
            date: text_of(self.date),
            abstractt: text_of(self.abstractt),
            bibliography: text_of(self.bibliography),
            content: self.content@,
        }
    }
}

/// The document with no header field and an empty body.
pub open spec fn blank() -> DocumentView {
    DocumentView {
        title: None,
        authors: None,
        date: None,
        abstractt: None,
        bibliography: None,
        content: Seq::empty(),
    }
}

/// A header field's text, or `default` where the field is not set.
pub open spec fn or_default(field: Option<Seq<char>>, default: Seq<char>) -> Seq<char> {
    match field {
        Some(s) => s,
        None => default,
    }
}

/// The template with its named places filled from the document: title,
/// authors, abstract, bibliography, date and content, in this order, each
/// replacement applied to the result of the one before. A field that is not
/// set fills its place with nothing, the date with `\today`.
pub open spec fn filled(doc: DocumentView, template: Seq<char>) -> Seq<char> {
    let t1 = replaced(template, "%title%"@, or_default(doc.title, ""@));
    let t2 = replaced(t1, "%authors%"@, or_default(doc.authors, ""@));
    let t3 = replaced(t2, "%abstract%"@, or_default(doc.abstractt, ""@));
    let t4 = replaced(t3, "%bibliography%"@, or_default(doc.bibliography, ""@));
    let t5 = replaced(t4, "%date%"@, or_default(doc.date, "\\today"@));
    replaced(t5, "%content%"@, doc.content)
}

fn field_or<'a>(field: &'a Option<String>, default: &'a str) -> (text: &'a str)
    ensures
        text@ == or_default(text_of(*field), default@),
{
    match field {
        Some(s) => s.as_str(),
        None => default,
    }
}

impl Default for Document {
    fn default() -> (doc: Document)
        ensures
            doc@ == blank(),
    {
        Document {
            title: None,
            authors: None,
            date: None,
            abstractt: None,
            bibliography: None,
            content: String::new(),
        }
    }
}

impl Document {
    /// The template with its named places filled from this document.
    pub fn to_latex(&self, template: String) -> (out: String)
        ensures
            out@ == filled(self@, template@),
    {
        let t1 = replace(template.as_str(), "%title%", field_or(&self.title, ""));
        let t2 = replace(t1.as_str(), "%authors%", field_or(&self.authors, ""));
        let t3 = replace(t2.as_str(), "%abstract%", field_or(&self.abstractt, ""));
        let t4 = replace(t3.as_str(), "%bibliography%", field_or(&self.bibliography, ""));
        let t5 = replace(t4.as_str(), "%date%", field_or(&self.date, "\\today"));
        replace(t5.as_str(), "%content%", self.content.as_str())
    }
}

} // verus!

//! The parsed document: a tree of typed nodes, each with the source text it
//! spans and its children in source order.

use vstd::prelude::*;

verus! {

/// What a node of the parsed document is.
#[derive(Clone, Copy, Debug, PartialEq, Eq, Structural)]
pub enum NodeKind {
    Program,
    Section,
    Subsection,
    Subsubsection,
    Line,
    Proof,
    Figure,
    Theorem,
    Header,
    Citation,
    RawText,
    Math,
    Grid,
    Newline,
    ParenGroup,
    BrackGroup,
    QuoteGroup,
    FigContent,
    Caption,
    Label,
    ThType,
    ThTitle,
    ThContent,
    MyTitle,
    MyAbstract,
    MyName,
    MyBib,
}

/// One node of the parsed document.
#[derive(Debug)]
pub struct Node {
    /// What the node is.
    pub kind: NodeKind,
    /// The source text that the node spans.
    pub text: String,
    /// The nodes directly below this one, in source order.
    pub children: Vec<Node>,
}

} // verus!

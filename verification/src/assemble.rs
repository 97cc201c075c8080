//! From the top-level nodes and their rendered content fields to the
//! document: each node gives its markup in source order, and a header fills
//! the document's header fields.

use vstd::prelude::*;
use vstd::string::StringExecFns;
use crate::document::{Document, DocumentView, blank, text_of};
use crate::fields::{
    carries_field, child_fields, child_fields_grow, contains_kind, fields, fields_of, has_child,
    is_field, is_wrapper,
};
use crate::node::{Node, NodeKind};

verus! {

/// What a sequence of strings holds.
pub open spec fn texts(strings: Seq<String>) -> Seq<Seq<char>> {
    strings.map_values(|s: String| s@)
}

/// The rendered content of the last child of kind `kind` below a top-level
/// node of kind `parent`, or nothing where there is no such child. `rendered`
/// holds the rendered content fields of the document, those of this node from
/// offset `at` on.
pub open spec fn picked(
    parent: NodeKind,
    children: Seq<Node>,
    kind: NodeKind,
    rendered: Seq<Seq<char>>,
    at: int,
) -> Seq<char>
    decreases children.len(),
{
    if children.len() == 0 {
        Seq::empty()
    } else if children.last().kind == kind {
        rendered[at + child_fields(parent, children.drop_last()).len()]
    } else {
        picked(parent, children.drop_last(), kind, rendered, at)
    }
}

/// The source text of the last child of kind `kind`, or nothing where there
/// is no such child.
pub open spec fn verbatim(children: Seq<Node>, kind: NodeKind) -> Seq<char>
    decreases children.len(),
{
    if children.len() == 0 {
        Seq::empty()
    } else if children.last().kind == kind {
        children.last().text@
    } else {
        verbatim(children.drop_last(), kind)
    }
}

/// The label of a figure or a theorem: the source text of its label child in
/// a label command, or nothing where it has none.
pub open spec fn label_of(children: Seq<Node>) -> Seq<char> {
    if has_child(children, NodeKind::Label) {
        "\\label{"@ + verbatim(children, NodeKind::Label) + "}"@
    } else {
        Seq::empty()
    }
}

/// The title of a theorem: its rendered title in braces, or nothing where it
/// has none.
pub open spec fn title_of(children: Seq<Node>, rendered: Seq<Seq<char>>, at: int) -> Seq<char> {
    if has_child(children, NodeKind::ThTitle) {
        "{"@ + picked(NodeKind::Theorem, children, NodeKind::ThTitle, rendered, at) + "}"@
    } else {
        Seq::empty()
    }
}

/// What a figure gives: its content, its caption and its label, in this
/// order, whatever their order in the source.
pub open spec fn figure_output(children: Seq<Node>, rendered: Seq<Seq<char>>, at: int) -> Seq<
    char,
> {
    "\\begin{figure}\n"@ + picked(
        NodeKind::Figure,
        children,
        NodeKind::FigContent,
        rendered,
        at,
    ) + "\n\\caption{"@ + picked(NodeKind::Figure, children, NodeKind::Caption, rendered, at)
        + "}\n"@ + label_of(children) + "\\end{figure}"@
}

/// What a theorem gives: an environment named by its type, with its title,
/// its label and its body, in this order.
pub open spec fn theorem_output(children: Seq<Node>, rendered: Seq<Seq<char>>, at: int) -> Seq<
    char,
> {
    "\\begin{"@ + verbatim(children, NodeKind::ThType) + "}"@ + title_of(children, rendered, at)
        + label_of(children) + "\n"@ + picked(
        NodeKind::Theorem,
        children,
        NodeKind::ThContent,
        rendered,
        at,
    ) + "\n\\end{"@ + verbatim(children, NodeKind::ThType) + "}\n"@
}

/// What a top-level node appends to the body of the document. `rendered`
/// holds the rendered content fields of the document, those of this node from
/// offset `at` on.
pub open spec fn output_of(node: Node, rendered: Seq<Seq<char>>, at: int) -> Seq<char> {
    match node.kind {
        NodeKind::Newline => "\n"@,
        NodeKind::Section => "\\section{"@ + rendered[at] + "}\n"@,
        NodeKind::Subsection => "\\subsection{"@ + rendered[at] + "}\n"@,
        NodeKind::Subsubsection => "\\subsubsection{"@ + rendered[at] + "}\n"@,
        NodeKind::Line => rendered[at],
        NodeKind::Proof => "\\begin{proof}"@ + rendered[at] + "\\end{proof}"@,
        NodeKind::Figure => figure_output(node.children@, rendered, at),
        NodeKind::Theorem => theorem_output(node.children@, rendered, at),
        _ => Seq::empty(),
    }
}

/// A header field after a header node: the rendered content of the last
/// child of kind `kind`, or the field as it was where there is no such child.
pub open spec fn field_after(
    was: Option<Seq<char>>,
    children: Seq<Node>,
    kind: NodeKind,
    rendered: Seq<Seq<char>>,
    at: int,
) -> Option<Seq<char>> {
    if has_child(children, kind) {
        Some(picked(NodeKind::Header, children, kind, rendered, at))
    } else {
        was
    }
}

/// The document after one more top-level node. A header sets the title, the
/// abstract and the bibliography to the rendered content of its children of
/// these kinds, and the authors to the source text of its name child; where a
/// field is given more than once, in one header or in several, the last one
/// stays. Any other node appends its output to the body.
pub open spec fn absorbed(doc: DocumentView, node: Node, rendered: Seq<Seq<char>>, at: int) -> DocumentView {
    if node.kind is Header {
        DocumentView {
            title: field_after(doc.title, node.children@, NodeKind::MyTitle, rendered, at),
            authors: if has_child(node.children@, NodeKind::MyName) {
                Some(verbatim(node.children@, NodeKind::MyName))
            } else {
                doc.authors
            },
            date: doc.date,
            abstractt: field_after(
                doc.abstractt,
                node.children@,
                NodeKind::MyAbstract,
                rendered,
                at,
            ),
            bibliography: field_after(
                doc.bibliography,
                node.children@,
                NodeKind::MyBib,
                rendered,
                at,
            ),
            content: doc.content,
        }
    } else {
        DocumentView {
            title: doc.title,
            authors: doc.authors,
            date: doc.date,
            abstractt: doc.abstractt,
            bibliography: doc.bibliography,
            content: doc.content + output_of(node, rendered, at),
        }
    }
}

/// The document that the top-level nodes `nodes` give, where `rendered` holds
/// their rendered content fields in source order.
pub open spec fn assembled(nodes: Seq<Node>, rendered: Seq<Seq<char>>) -> DocumentView
    decreases nodes.len(),
{
    if nodes.len() == 0 {
        blank()
    } else {
        absorbed(
            assembled(nodes.drop_last(), rendered),
            nodes.last(),
            rendered,
            fields(nodes.drop_last()).len() as int,
        )
    }
}

/// The first nodes of a document have no more content fields than all of
/// them.
pub proof fn fields_grow(nodes: Seq<Node>, n: int)
    requires
        0 <= n <= nodes.len(),
    ensures
        fields(nodes.take(n)).len() <= fields(nodes).len(),
    decreases nodes.len(),
{
    if n == nodes.len() {
        assert(nodes.take(n) =~= nodes);
    } else {
        fields_grow(nodes.drop_last(), n);
        assert(nodes.drop_last().take(n) =~= nodes.take(n));
    }
}

fn pick(
    parent: NodeKind,
    children: &Vec<Node>,
    kind: NodeKind,
    rendered: &Vec<String>,
    at: usize,
) -> (text: String)
    requires
        at + child_fields(parent, children@).len() <= rendered.len(),
        carries_field(parent, kind),
    ensures
        text@ == picked(parent, children@, kind, texts(rendered@), at as int),
{
    let mut text = String::new();
    let mut used: usize = 0;
    let mut i: usize = 0;
    while i < children.len()
        invariant
            i <= children.len(),
            at + child_fields(parent, children@).len() <= rendered.len(),
            carries_field(parent, kind),
            used == child_fields(parent, children@.take(i as int)).len(),
            text@ == picked(parent, children@.take(i as int), kind, texts(rendered@), at as int),
        decreases children.len() - i,
    {
        proof {
            assert(children@.take(i + 1).drop_last() =~= children@.take(i as int));
            child_fields_grow(parent, children@, i + 1);
        }
        if is_field(parent, children[i].kind) {
            if children[i].kind == kind {
                text = rendered[at + used].clone();
            }
            used += 1;
        }
        i += 1;
    }
    proof {
        assert(children@.take(children@.len() as int) =~= children@);
    }
    text
}

fn source_text(children: &Vec<Node>, kind: NodeKind) -> (text: String)
    ensures
        text@ == verbatim(children@, kind),
{
    let mut text = String::new();
    let mut i: usize = 0;
    while i < children.len()
        invariant
            i <= children.len(),
            text@ == verbatim(children@.take(i as int), kind),
        decreases children.len() - i,
    {
        proof {
            assert(children@.take(i + 1).drop_last() =~= children@.take(i as int));
        }
        if children[i].kind == kind {
            text = children[i].text.clone();
        }
        i += 1;
    }
    proof {
        assert(children@.take(children@.len() as int) =~= children@);
    }
    text
}

fn label(children: &Vec<Node>) -> (text: String)
    ensures
        text@ == label_of(children@),
{
    if contains_kind(children, NodeKind::Label) {
        let mut text = String::from_str("\\label{");
        text.append(source_text(children, NodeKind::Label).as_str());
        text.append("}");
        text
    } else {
        String::new()
    }
}

fn wrap(before: &str, body: &str, after: &str) -> (text: String)
    ensures
        text@ == before@ + body@ + after@,
{
    let mut text = String::from_str(before);
    text.append(body);
    text.append(after);
    text
}

fn figure(children: &Vec<Node>, rendered: &Vec<String>, at: usize) -> (text: String)
    requires
        at + child_fields(NodeKind::Figure, children@).len() <= rendered.len(),
    ensures
        text@ == figure_output(children@, texts(rendered@), at as int),
{
    let mut text = String::from_str("\\begin{figure}\n");
    text.append(pick(NodeKind::Figure, children, NodeKind::FigContent, rendered, at).as_str());
    text.append("\n\\caption{");
    text.append(pick(NodeKind::Figure, children, NodeKind::Caption, rendered, at).as_str());
    text.append("}\n");
    text.append(label(children).as_str());
    text.append("\\end{figure}");
    text
}

fn theorem(children: &Vec<Node>, rendered: &Vec<String>, at: usize) -> (text: String)
    requires
        at + child_fields(NodeKind::Theorem, children@).len() <= rendered.len(),
    ensures
        text@ == theorem_output(children@, texts(rendered@), at as int),
{
    let name = source_text(children, NodeKind::ThType);
    let mut text = String::from_str("\\begin{");
    text.append(name.as_str());
    text.append("}");
    if contains_kind(children, NodeKind::ThTitle) {
        text.append("{");
        text.append(pick(NodeKind::Theorem, children, NodeKind::ThTitle, rendered, at).as_str());
        text.append("}");
    }
    text.append(label(children).as_str());
    text.append("\n");
    text.append(pick(NodeKind::Theorem, children, NodeKind::ThContent, rendered, at).as_str());
    text.append("\n\\end{");
    text.append(name.as_str());
    text.append("}\n");
    proof {
        let title = title_of(children@, texts(rendered@), at as int);
        if has_child(children@, NodeKind::ThTitle) {
            let inner = picked(
                NodeKind::Theorem,
                children@,
                NodeKind::ThTitle,
                texts(rendered@),
                at as int,
            );
            assert("\\begin{"@ + name@ + "}"@ + "{"@ + inner + "}"@ =~= "\\begin{"@ + name@ + "}"@
                + title);
        } else {
            assert("\\begin{"@ + name@ + "}"@ =~= "\\begin{"@ + name@ + "}"@ + title);
        }
    }
    text
}

fn output(node: &Node, rendered: &Vec<String>, at: usize) -> (text: String)
    requires
        at + fields_of(*node).len() <= rendered.len(),
    ensures
        text@ == output_of(*node, texts(rendered@), at as int),
{
    match node.kind {
        NodeKind::Newline => String::from_str("\n"),
        NodeKind::Section => wrap("\\section{", rendered[at].as_str(), "}\n"),
        NodeKind::Subsection => wrap("\\subsection{", rendered[at].as_str(), "}\n"),
        NodeKind::Subsubsection => wrap("\\subsubsection{", rendered[at].as_str(), "}\n"),
        NodeKind::Line => rendered[at].clone(),
        NodeKind::Proof => wrap("\\begin{proof}", rendered[at].as_str(), "\\end{proof}"),
        NodeKind::Figure => figure(&node.children, rendered, at),
        NodeKind::Theorem => theorem(&node.children, rendered, at),
        _ => String::new(),
    }
}

fn header_field(
    was: Option<String>,
    children: &Vec<Node>,
    kind: NodeKind,
    rendered: &Vec<String>,
    at: usize,
) -> (now: Option<String>)
    requires
        at + child_fields(NodeKind::Header, children@).len() <= rendered.len(),
        carries_field(NodeKind::Header, kind),
    ensures
        text_of(now) == field_after(
            text_of(was),
            children@,
            kind,
            texts(rendered@),
            at as int,
        ),
{
    if contains_kind(children, kind) {
        Some(pick(NodeKind::Header, children, kind, rendered, at))
    } else {
        was
    }
}

/// How many content fields the top-level node `node` has.
pub fn field_count(node: &Node) -> (n: usize)
    ensures
        n == fields_of(*node).len(),
{
    if is_wrapper(node.kind) || node.kind == NodeKind::Line {
        return 1;
    }
    let mut n: usize = 0;
    let mut i: usize = 0;
    while i < node.children.len()
        invariant
            i <= node.children.len(),
            n <= i,
            n == child_fields(node.kind, node.children@.take(i as int)).len(),
        decreases node.children.len() - i,
    {
        proof {
            assert(node.children@.take(i + 1).drop_last() =~= node.children@.take(i as int));
        }
        if is_field(node.kind, node.children[i].kind) {
            n += 1;
        }
        i += 1;
    }
    proof {
        assert(node.children@.take(node.children@.len() as int) =~= node.children@);
    }
    n
}

/// The document that the top-level nodes `nodes` give, where `rendered` holds
/// their rendered content fields in source order.
pub(crate) fn assemble(nodes: &Vec<Node>, rendered: &Vec<String>) -> (doc: Document)
    requires
        rendered.len() == fields(nodes@).len(),
    ensures
        doc@ == assembled(nodes@, texts(rendered@)),
{
    let mut doc = Document::default();
    let mut at: usize = 0;
    let mut i: usize = 0;
    while i < nodes.len()
        invariant
            i <= nodes.len(),
            rendered.len() == fields(nodes@).len(),
            at == fields(nodes@.take(i as int)).len(),
            doc@ == assembled(nodes@.take(i as int), texts(rendered@)),
        decreases nodes.len() - i,
    {
        let node = &nodes[i];
        proof {
            assert(nodes@.take(i + 1).drop_last() =~= nodes@.take(i as int));
            fields_grow(nodes@, i + 1);
        }
        let count = field_count(node);
        if node.kind == NodeKind::Header {
            doc.title =
            header_field(doc.title, &node.children, NodeKind::MyTitle, rendered, at);
            if contains_kind(&node.children, NodeKind::MyName) {
                doc.authors = Some(source_text(&node.children, NodeKind::MyName));
            }
            doc.abstractt =
            header_field(doc.abstractt, &node.children, NodeKind::MyAbstract, rendered, at);
            doc.bibliography =
            header_field(doc.bibliography, &node.children, NodeKind::MyBib, rendered, at);
        } else {
            let text = output(node, rendered, at);
            doc.content.append(text.as_str());
        }
        at += count;
        i += 1;
    }
    proof {
        assert(nodes@.take(nodes@.len() as int) =~= nodes@);
    }
    doc
}


/// A document keeps the order of its source: what the first nodes append to
/// the body stands at the start of what all of them append.
pub proof fn body_grows(nodes: Seq<Node>, rendered: Seq<Seq<char>>, n: int)
    requires
        0 <= n <= nodes.len(),
    ensures
        assembled(nodes.take(n), rendered).content.is_prefix_of(assembled(nodes, rendered).content),
    decreases nodes.len(),
{
    if n == nodes.len() {
        assert(nodes.take(n) =~= nodes);
    } else {
        body_grows(nodes.drop_last(), rendered, n);
        assert(nodes.drop_last().take(n) =~= nodes.take(n));
    }
}

/// After one more node that is no header, the body is the body before it
/// with the output of that node at its end.
pub proof fn body_appends(nodes: Seq<Node>, node: Node, rendered: Seq<Seq<char>>)
    requires
        !(node.kind is Header),
    ensures
        assembled(nodes.push(node), rendered).content == assembled(nodes, rendered).content
            + output_of(node, rendered, fields(nodes).len() as int),
{
    assert(nodes.push(node).drop_last() =~= nodes);
}

/// A figure gives its content before its caption, whichever of the two comes
/// first in the source.
pub proof fn figure_order_is_fixed(
    content: Node,
    caption: Node,
    rendered_content: Seq<char>,
    rendered_caption: Seq<char>,
)
    requires
        content.kind is FigContent,
        caption.kind is Caption,
    ensures
        figure_output(seq![content, caption], seq![rendered_content, rendered_caption], 0)
            == "\\begin{figure}\n"@ + rendered_content + "\n\\caption{"@ + rendered_caption
            + "}\n"@ + "\\end{figure}"@,
        figure_output(seq![caption, content], seq![rendered_caption, rendered_content], 0)
            == "\\begin{figure}\n"@ + rendered_content + "\n\\caption{"@ + rendered_caption
            + "}\n"@ + "\\end{figure}"@,
{
    reveal_with_fuel(picked, 3);
    reveal_with_fuel(child_fields, 3);
    reveal_with_fuel(has_child, 3);
    let first = seq![content, caption];
    let second = seq![caption, content];
    assert(first.drop_last() =~= seq![content]);
    assert(second.drop_last() =~= seq![caption]);
    assert(seq![content].drop_last() =~= Seq::<Node>::empty());
    assert(seq![caption].drop_last() =~= Seq::<Node>::empty());
    assert(label_of(first) =~= Seq::<char>::empty());
    assert(label_of(second) =~= Seq::<char>::empty());
    let head = "\\begin{figure}\n"@ + rendered_content + "\n\\caption{"@ + rendered_caption
        + "}\n"@;
    assert(head + Seq::<char>::empty() =~= head);
}

} // verus!

//! The content fields of a document: the pieces of inline content that are
//! handed to the converter, one by one, in source order.

use vstd::prelude::*;
use crate::node::{Node, NodeKind};
use crate::segment::{process_text, segments};
use crate::text::{Segment, Text, views};

verus! {

/// Whether a top-level node of this kind renders the content of its first
/// child.
pub open spec fn wraps_content(kind: NodeKind) -> bool {
    kind is Section || kind is Subsection || kind is Subsubsection || kind is Proof
}

/// Whether a child of kind `child`, below a top-level node of kind `parent`,
/// is rendered as inline content.
pub open spec fn carries_field(parent: NodeKind, child: NodeKind) -> bool {
    match parent {
        NodeKind::Figure => child is FigContent || child is Caption,
        NodeKind::Theorem => child is ThTitle || child is ThContent,
        NodeKind::Header => child is MyTitle || child is MyAbstract || child is MyBib,
        _ => false,
    }
}

/// The inline content of a node that wraps it: the segments of its first
/// child.
pub open spec fn inner(node: Node) -> Seq<Segment>
    recommends
        node.children@.len() > 0,
{
    segments(node.children@[0])
}

/// The content fields among the children of a top-level node of kind
/// `parent`, in source order.
pub open spec fn child_fields(parent: NodeKind, children: Seq<Node>) -> Seq<Seq<Segment>>
    decreases children.len(),
{
    if children.len() == 0 {
        Seq::empty()
    } else if carries_field(parent, children.last().kind) {
        child_fields(parent, children.drop_last()).push(inner(children.last()))
    } else {
        child_fields(parent, children.drop_last())
    }
}

/// The content fields of one top-level node, in source order. A heading or a
/// proof has one, the content of its first child; a line has one, its own
/// content; a figure, a theorem or a header has one for each child that is
/// rendered as inline content; any other node has none.
pub open spec fn fields_of(node: Node) -> Seq<Seq<Segment>> {
    if wraps_content(node.kind) {
        seq![inner(node)]
    } else if node.kind is Line {
        seq![segments(node)]
    } else {
        child_fields(node.kind, node.children@)
    }
}

/// The content fields of a sequence of top-level nodes, in source order.
pub open spec fn fields(nodes: Seq<Node>) -> Seq<Seq<Segment>>
    decreases nodes.len(),
{
    if nodes.len() == 0 {
        Seq::empty()
    } else {
        fields(nodes.drop_last()) + fields_of(nodes.last())
    }
}

/// Whether one of `children` is of kind `kind`.
pub open spec fn has_child(children: Seq<Node>, kind: NodeKind) -> bool
    decreases children.len(),
{
    children.len() > 0 && (children.last().kind == kind || has_child(
        children.drop_last(),
        kind,
    ))
}

/// Whether every child that is rendered as inline content has the child that
/// holds this content.
pub open spec fn children_complete(parent: NodeKind, children: Seq<Node>) -> bool {
    forall|i: int|
        0 <= i < children.len() && carries_field(parent, (#[trigger] children[i]).kind)
            ==> children[i].children@.len() > 0
}

/// Whether a top-level node has the children that the grammar guarantees: a
/// heading or a proof its content; each child that is rendered as inline
/// content its content; a theorem its type and its body.
pub open spec fn well_formed(node: Node) -> bool {
    if wraps_content(node.kind) {
        node.children@.len() > 0
    } else if node.kind is Theorem {
        &&& children_complete(node.kind, node.children@)
        &&& has_child(node.children@, NodeKind::ThType)
        &&& has_child(node.children@, NodeKind::ThContent)
    } else {
        children_complete(node.kind, node.children@)
    }
}

/// Whether every top-level node has the children that the grammar guarantees.
pub open spec fn grammatical(nodes: Seq<Node>) -> bool {
    forall|i: int| 0 <= i < nodes.len() ==> well_formed(#[trigger] nodes[i])
}

/// What a sequence of content fields holds.
pub open spec fn field_views(fields: Seq<Vec<Text>>) -> Seq<Seq<Segment>> {
    fields.map_values(|f: Vec<Text>| views(f@))
}

/// The fields among the first children of a node are no more than the fields
/// among all of them.
pub proof fn child_fields_grow(parent: NodeKind, children: Seq<Node>, n: int)
    requires
        0 <= n <= children.len(),
    ensures
        child_fields(parent, children.take(n)).len() <= child_fields(parent, children).len(),
    decreases children.len(),
{
    if n == children.len() {
        assert(children.take(n) =~= children);
    } else {
        child_fields_grow(parent, children.drop_last(), n);
        assert(children.drop_last().take(n) =~= children.take(n));
    }
}

/// Whether a top-level node of this kind renders the content of its first
/// child.
pub fn is_wrapper(kind: NodeKind) -> (b: bool)
    ensures
        b == wraps_content(kind),
{
    match kind {
        NodeKind::Section | NodeKind::Subsection | NodeKind::Subsubsection | NodeKind::Proof => true,
        _ => false,
    }
}

/// Whether a child of kind `child`, below a top-level node of kind `parent`,
/// is rendered as inline content.
pub fn is_field(parent: NodeKind, child: NodeKind) -> (b: bool)
    ensures
        b == carries_field(parent, child),
{
    match parent {
        NodeKind::Figure => match child {
            NodeKind::FigContent | NodeKind::Caption => true,
            _ => false,
        },
        NodeKind::Theorem => match child {
            NodeKind::ThTitle | NodeKind::ThContent => true,
            _ => false,
        },
        NodeKind::Header => match child {
            NodeKind::MyTitle | NodeKind::MyAbstract | NodeKind::MyBib => true,
            _ => false,
        },
        _ => false,
    }
}

/// Whether one of `children` is of kind `kind`.
pub fn contains_kind(children: &Vec<Node>, kind: NodeKind) -> (b: bool)
    ensures
        b == has_child(children@, kind),
{
    let mut found = false;
    let mut i: usize = 0;
    while i < children.len()
        invariant
            i <= children.len(),
            found == has_child(children@.take(i as int), kind),
        decreases children.len() - i,
    {
        proof {
            assert(children@.take(i + 1).drop_last() =~= children@.take(i as int));
        }
        if children[i].kind == kind {
            found = true;
        }
        i += 1;
    }
    proof {
        assert(children@.take(children@.len() as int) =~= children@);
    }
    found
}

/// Appends to `out` the content fields among the children of `node`, and says
/// whether each of them had its content.
fn collect_children(node: &Node, out: &mut Vec<Vec<Text>>) -> (complete: bool)
    ensures
        complete == children_complete(node.kind, node.children@),
        complete ==> field_views(final(out)@) == field_views(old(out)@) + child_fields(
            node.kind,
            node.children@,
        ),
{
    let ghost start = field_views(old(out)@);
    let mut i: usize = 0;
    proof {
        assert(start + child_fields(node.kind, node.children@.take(0)) =~= start);
    }
    while i < node.children.len()
        invariant
            i <= node.children.len(),
            children_complete(node.kind, node.children@.take(i as int)),
            field_views(out@) == start + child_fields(node.kind, node.children@.take(i as int)),
        decreases node.children.len() - i,
    {
        let child = &node.children[i];
        let ghost upto = node.children@.take(i + 1);
        proof {
            assert(upto.drop_last() =~= node.children@.take(i as int));
            assert(upto.last() == node.children@[i as int]);
        }
        if is_field(node.kind, child.kind) {
            if child.children.len() == 0 {
                return false;
            }
            let ghost before = out@;
            out.push(process_text(&child.children[0]));
            proof {
                assert(field_views(out@) =~= field_views(before).push(inner(*child)));
                assert(field_views(out@) =~= start + child_fields(node.kind, upto));
            }
        }
        proof {
            assert forall|j: int|
                0 <= j < upto.len() && carries_field(
                    node.kind,
                    (#[trigger] upto[j]).kind,
                ) implies upto[j].children@.len() > 0 by {
                if j < i {
                    assert(upto[j] == node.children@.take(i as int)[j]);
                }
            }
        }
        i += 1;
    }
    proof {
        assert(node.children@.take(node.children@.len() as int) =~= node.children@);
    }
    true
}

/// Appends to `out` the content fields of the top-level node `node`, and says
/// whether the node has the children that the grammar guarantees.
fn collect_node(node: &Node, out: &mut Vec<Vec<Text>>) -> (sound: bool)
    ensures
        sound == well_formed(*node),
        sound ==> field_views(final(out)@) == field_views(old(out)@) + fields_of(*node),
{
    let ghost before = out@;
    if is_wrapper(node.kind) {
        if node.children.len() == 0 {
            return false;
        }
        out.push(process_text(&node.children[0]));
        proof {
            assert(field_views(out@) =~= field_views(before) + fields_of(*node));
        }
        true
    } else if node.kind == NodeKind::Line {
        out.push(process_text(node));
        proof {
            assert(field_views(out@) =~= field_views(before) + fields_of(*node));
        }
        true
    } else if node.kind == NodeKind::Theorem {
        if !contains_kind(&node.children, NodeKind::ThType) {
            return false;
        }
        if !contains_kind(&node.children, NodeKind::ThContent) {
            return false;
        }
        collect_children(node, out)
    } else {
        collect_children(node, out)
    }
}

/// The content fields of a sequence of top-level nodes, in source order; or
/// nothing where a node lacks a child that the grammar guarantees.
pub fn collect_fields(nodes: &Vec<Node>) -> (found: Option<Vec<Vec<Text>>>)
    ensures
        found is Some <==> grammatical(nodes@),
        found is Some ==> field_views(found->Some_0@) == fields(nodes@),
{
    let mut out: Vec<Vec<Text>> = Vec::new();
    let mut i: usize = 0;
    proof {
        assert(field_views(out@) =~= fields(nodes@.take(0)));
    }
    while i < nodes.len()
        invariant
            i <= nodes.len(),
            grammatical(nodes@.take(i as int)),
            field_views(out@) == fields(nodes@.take(i as int)),
        decreases nodes.len() - i,
    {
        let ghost upto = nodes@.take(i + 1);
        proof {
            assert(upto.drop_last() =~= nodes@.take(i as int));
            assert(upto.last() == nodes@[i as int]);
        }
        if !collect_node(&nodes[i], &mut out) {
            return None;
        }
        proof {
            assert forall|j: int| 0 <= j < upto.len() implies well_formed(#[trigger] upto[j]) by {
                if j < i {
                    assert(upto[j] == nodes@.take(i as int)[j]);
                }
            }
        }
        i += 1;
    }
    proof {
        assert(nodes@.take(nodes@.len() as int) =~= nodes@);
    }
    Some(out)
}

} // verus!

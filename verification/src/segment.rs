//! From a content subtree to its segments: literal text is gathered into runs,
//! and every citation stands alone between them.

use vstd::prelude::*;
use vstd::string::StringExecFns;
use crate::node::{Node, NodeKind};
use crate::text::{Segment, Text, views};

verus! {

/// One step of a content subtree read from left to right: a run of literal
/// text, or a citation with its key.
pub enum Token {
    Literal(Seq<char>),
    Key(Seq<char>),
}

/// The tokens of a content subtree, in source order. Text, math, grids and
/// line breaks give their own text; a citation gives its key; a group gives
/// its children between its two delimiters; any other node gives its
/// children.
pub open spec fn tokens(node: Node) -> Seq<Token>
    decreases node,
{
    match node.kind {
        NodeKind::RawText | NodeKind::Math | NodeKind::Grid | NodeKind::Newline => seq![
            Token::Literal(node.text@),
        ],
        NodeKind::Citation => seq![Token::Key(node.text@)],
        NodeKind::ParenGroup => enclosed('(', tokens_of_all(node.children@), ')'),
        NodeKind::BrackGroup => enclosed('[', tokens_of_all(node.children@), ']'),
        NodeKind::QuoteGroup => enclosed('"', tokens_of_all(node.children@), '"'),
        _ => tokens_of_all(node.children@),
    }
}

/// The tokens `inner` between an opening and a closing delimiter.
pub open spec fn enclosed(open: char, inner: Seq<Token>, close: char) -> Seq<Token> {
    seq![Token::Literal(seq![open])] + inner + seq![Token::Literal(seq![close])]
}

/// The tokens of several subtrees, one after the other.
pub open spec fn tokens_of_all(nodes: Seq<Node>) -> Seq<Token>
    decreases nodes,
{
    if nodes.len() == 0 {
        Seq::empty()
    } else {
        tokens_of_all(nodes.drop_last()) + tokens(nodes.last())
    }
}

/// Segments under construction: those that are complete, and the literal text
/// read since the last of them.
pub struct Gathered {
    pub done: Seq<Segment>,
    pub pending: Seq<char>,
}

/// The complete segments once the pending text, if there is any, is closed.
pub open spec fn flushed(g: Gathered) -> Seq<Segment> {
    if g.pending.len() == 0 {
        g.done
    } else {
        g.done.push(Segment::Raw(g.pending))
    }
}

/// `g` after one more token. Literal text joins the pending text; a citation
/// closes the pending text and stands after it.
pub open spec fn absorb(g: Gathered, t: Token) -> Gathered {
    match t {
        Token::Literal(s) => Gathered { done: g.done, pending: g.pending + s },
        Token::Key(k) => Gathered {
            done: flushed(g).push(Segment::Citation(k)),
            pending: Seq::empty(),
        },
    }
}

/// `g` after the tokens `ts`, read in order.
pub open spec fn gather(g: Gathered, ts: Seq<Token>) -> Gathered
    decreases ts.len(),
{
    if ts.len() == 0 {
        g
    } else {
        absorb(gather(g, ts.drop_last()), ts.last())
    }
}

/// Nothing gathered yet.
pub open spec fn nothing() -> Gathered {
    Gathered { done: Seq::empty(), pending: Seq::empty() }
}

/// The segments of a content subtree.
pub open spec fn segments(node: Node) -> Seq<Segment> {
    flushed(gather(nothing(), tokens(node)))
}

/// Reading `a` and then `b` is reading `a + b`.
pub proof fn gather_concat(g: Gathered, a: Seq<Token>, b: Seq<Token>)
    ensures
        gather(g, a + b) == gather(gather(g, a), b),
    decreases b.len(),
{
    if b.len() == 0 {
        assert(a + b =~= a);
    } else {
        gather_concat(g, a, b.drop_last());
        assert((a + b).drop_last() =~= a + b.drop_last());
        assert((a + b).last() == b.last());
    }
}

proof fn gather_one(g: Gathered, t: Token)
    ensures
        gather(g, seq![t]) == absorb(g, t),
{
    reveal_with_fuel(gather, 2);
    assert(seq![t].drop_last() =~= Seq::<Token>::empty());
}

proof fn gather_enclosed(g: Gathered, open: char, inner: Seq<Token>, close: char)
    ensures
        gather(g, enclosed(open, inner, close)) == absorb(
            gather(absorb(g, Token::Literal(seq![open])), inner),
            Token::Literal(seq![close]),
        ),
{
    let first = seq![Token::Literal(seq![open])];
    let last = seq![Token::Literal(seq![close])];
    gather_concat(g, first + inner, last);
    gather_concat(g, first, inner);
    gather_one(g, Token::Literal(seq![open]));
    gather_one(gather(g, first + inner), Token::Literal(seq![close]));
}

/// What holds of segments under construction: each raw segment has text, a
/// citation stands at the end of the complete ones, no two raw segments
/// stand side by side, and none is finished output.
pub open spec fn tidy(g: Gathered) -> bool {
    &&& g.done.len() > 0 ==> g.done.last() is Citation
    &&& forall|i: int| 0 <= i < g.done.len() ==> !(#[trigger] g.done[i] is Latex)
    &&& forall|i: int|
        0 <= i < g.done.len() ==> ((#[trigger] g.done[i]) matches Segment::Raw(t) ==> t.len() > 0)
    &&& forall|i: int|
        0 <= i < g.done.len() - 1 ==> !((#[trigger] g.done[i]) is Raw && g.done[i + 1] is Raw)
}

proof fn gather_keeps_tidy(g: Gathered, ts: Seq<Token>)
    requires
        tidy(g),
    ensures
        tidy(gather(g, ts)),
    decreases ts.len(),
{
    if ts.len() > 0 {
        gather_keeps_tidy(g, ts.drop_last());
        let before = gather(g, ts.drop_last());
        let after = absorb(before, ts.last());
        if ts.last() is Key {
            let closed = flushed(before);
            assert forall|i: int| 0 <= i < after.done.len() - 1 implies !((
            #[trigger] after.done[i]) is Raw && after.done[i + 1] is Raw) by {
                if i < before.done.len() - 1 {
                    assert(after.done[i] == before.done[i]);
                    assert(after.done[i + 1] == before.done[i + 1]);
                } else if i == before.done.len() - 1 {
                    assert(after.done[i] == before.done.last());
                }
            }
            assert forall|i: int| 0 <= i < after.done.len() implies ((
            #[trigger] after.done[i]) matches Segment::Raw(t) ==> t.len() > 0) by {
                if i < before.done.len() {
                    assert(after.done[i] == before.done[i]);
                }
            }
            assert forall|i: int| 0 <= i < after.done.len() implies !(
            #[trigger] after.done[i] is Latex) by {
                if i < before.done.len() {
                    assert(after.done[i] == before.done[i]);
                }
            }
        }
    }
}

/// The segments of a content subtree are citations and runs of literal text:
/// no run is empty, and no two runs stand side by side.
pub proof fn segments_are_runs_and_citations(node: Node)
    ensures
        forall|i: int| 0 <= i < segments(node).len() ==> !(#[trigger] segments(node)[i] is Latex),
        forall|i: int|
            0 <= i < segments(node).len() ==> ((#[trigger] segments(node)[i]) matches Segment::Raw(
                t,
            ) ==> t.len() > 0),
        forall|i: int|
            0 <= i < segments(node).len() - 1 ==> !((#[trigger] segments(node)[i]) is Raw
                && segments(node)[i + 1] is Raw),
{
    gather_keeps_tidy(nothing(), tokens(node));
    let g = gather(nothing(), tokens(node));
    let all = segments(node);
    assert forall|i: int| 0 <= i < all.len() - 1 implies !((#[trigger] all[i]) is Raw && all[i
        + 1] is Raw) by {
        if i < g.done.len() - 1 {
            assert(all[i] == g.done[i]);
            assert(all[i + 1] == g.done[i + 1]);
        } else if i == g.done.len() - 1 {
            assert(all[i] == g.done.last());
        }
    }
    assert forall|i: int| 0 <= i < all.len() implies ((#[trigger] all[i]) matches Segment::Raw(t)
        ==> t.len() > 0) by {
        if i < g.done.len() {
            assert(all[i] == g.done[i]);
        }
    }
    assert forall|i: int| 0 <= i < all.len() implies !(#[trigger] all[i] is Latex) by {
        if i < g.done.len() {
            assert(all[i] == g.done[i]);
        }
    }
}

/// Two citations with nothing between them give two segments, side by side
/// and in their order.
pub proof fn adjacent_citations_stay_apart(parent: Node, first: Node, second: Node)
    requires
        parent.kind is Line,
        parent.children@ == seq![first, second],
        first.kind is Citation,
        second.kind is Citation,
    ensures
        segments(parent) == seq![Segment::Citation(first.text@), Segment::Citation(second.text@)],
{
    reveal_with_fuel(gather, 3);
    let both = seq![first, second];
    assert(both.drop_last() =~= seq![first]);
    assert(seq![first].drop_last() =~= Seq::<Node>::empty());
    assert(tokens(first) == seq![Token::Key(first.text@)]);
    assert(tokens(second) == seq![Token::Key(second.text@)]);
    assert(tokens_of_all(Seq::<Node>::empty()) =~= Seq::<Token>::empty());
    assert(tokens_of_all(seq![first]) =~= tokens(first));
    assert(tokens_of_all(both) =~= tokens(first) + tokens(second));
    let ts = tokens(parent);
    assert(ts =~= seq![Token::Key(first.text@), Token::Key(second.text@)]);
    assert(ts.drop_last() =~= seq![Token::Key(first.text@)]);
    assert(ts.drop_last().drop_last() =~= Seq::<Token>::empty());
    assert(segments(parent) =~= seq![
        Segment::Citation(first.text@),
        Segment::Citation(second.text@),
    ]);
}


/// The state of a walk: the segments written so far and the text not yet
/// closed.
pub open spec fn state(result: Seq<Text>, current: Seq<char>) -> Gathered {
    Gathered { done: views(result), pending: current }
}

fn process_inner(node: &Node, current: &mut String, result: &mut Vec<Text>)
    ensures
        state(final(result)@, final(current)@) == gather(
            state(old(result)@, old(current)@),
            tokens(*node),
        ),
    decreases node, 1nat,
{
    let ghost start = state(old(result)@, old(current)@);
    match node.kind {
        NodeKind::RawText | NodeKind::Math | NodeKind::Grid | NodeKind::Newline => {
            current.append(node.text.as_str());
            proof {
                gather_one(start, Token::Literal(node.text@));
            }
        },
        NodeKind::Citation => {
            if !current.as_str().is_empty() {
                let mut run = String::new();
                std::mem::swap(&mut run, current);
                result.push(Text::Raw(run));
            }
            result.push(Text::Citation(node.text.clone()));
            proof {
                gather_one(start, Token::Key(node.text@));
                assert(views(result@) =~= flushed(start).push(Segment::Citation(node.text@)));
                assert(current@ =~= Seq::<char>::empty());
            }
        },
        NodeKind::ParenGroup => {
            process_group(node, '(', ')', current, result);
        },
        NodeKind::BrackGroup => {
            process_group(node, '[', ']', current, result);
        },
        NodeKind::QuoteGroup => {
            process_group(node, '"', '"', current, result);
        },
        _ => {
            process_children(node, current, result);
        },
    }
}

fn process_group(
    node: &Node,
    open: char,
    close: char,
    current: &mut String,
    result: &mut Vec<Text>,
)
    ensures
        state(final(result)@, final(current)@) == gather(
            state(old(result)@, old(current)@),
            enclosed(open, tokens_of_all(node.children@), close),
        ),
    decreases node, 0nat, 1nat,
{
    current.push(open);
    process_children(node, current, result);
    current.push(close);
    proof {
        let start = state(old(result)@, old(current)@);
        gather_enclosed(start, open, tokens_of_all(node.children@), close);
        assert(old(current)@.push(open) =~= old(current)@ + seq![open]);
        let mid = gather(absorb(start, Token::Literal(seq![open])), tokens_of_all(node.children@));
        assert(mid.pending.push(close) =~= mid.pending + seq![close]);
    }
}

fn process_children(node: &Node, current: &mut String, result: &mut Vec<Text>)
    ensures
        state(final(result)@, final(current)@) == gather(
            state(old(result)@, old(current)@),
            tokens_of_all(node.children@),
        ),
    decreases node, 0nat, 0nat,
{
    let ghost start = state(old(result)@, old(current)@);
    let mut i: usize = 0;
    while i < node.children.len()
        invariant
            i <= node.children.len(),
            state(result@, current@) == gather(
                start,
                tokens_of_all(node.children@.take(i as int)),
            ),
        decreases node.children.len() - i,
    {
        process_inner(&node.children[i], current, result);
        proof {
            let upto = node.children@.take(i + 1);
            assert(upto.drop_last() =~= node.children@.take(i as int));
            gather_concat(
                start,
                tokens_of_all(node.children@.take(i as int)),
                tokens(node.children@[i as int]),
            );
        }
        i += 1;
    }
    proof {
        assert(node.children@.take(node.children@.len() as int) =~= node.children@);
    }
}

/// The segments of a content subtree: its literal text in runs, and each
/// citation on its own, in source order.
pub fn process_text(node: &Node) -> (result: Vec<Text>)
    ensures
        views(result@) == segments(*node),
{
    let mut result: Vec<Text> = Vec::new();
    let mut current = String::new();
    process_inner(node, &mut current, &mut result);
    if !current.as_str().is_empty() {
        result.push(Text::Raw(current));
    }
    proof {
        assert(views(Seq::<Text>::empty()) =~= Seq::<Segment>::empty());
        assert(views(result@) =~= segments(*node));
    }
    result
}

} // verus!

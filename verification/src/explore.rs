//! The walk over a document, one converter call at a time. The walk decides
//! what is asked of the converter and what becomes of its replies; whoever
//! drives it makes the calls.

use vstd::prelude::*;
use crate::assemble::{assemble, assembled, texts};
use crate::citations::CitationSet;
use crate::document::{Document, DocumentView};
use crate::error::{Error, Failure};
use crate::fields::{collect_fields, field_views, fields, grammatical};
use crate::node::Node;
use crate::text::{Segment, Text, build_id_string, escaped, reply_view, unescape, unescaped};

verus! {

/// What the driver of a walk does next.
#[derive(Debug)]
pub enum Action {
    /// Hand this text to the converter, and come back with its reply.
    Convert(String),
    /// The walk is over: this is the document.
    Finish(Document),
    /// The walk is over: there is no document.
    Abort(Error),
}

/// What an action holds, as mathematics.
pub enum Step {
    Convert(Seq<char>),
    Finish(DocumentView),
    Abort(Failure),
}

impl View for Action {
    type V = Step;

    open spec fn view(&self) -> Step {
        match *self {
            Action::Convert(text) => Step::Convert(text@),
            Action::Finish(doc) => Step::Finish(doc@),
            Action::Abort(error) => Step::Abort(error@),
        }
    }
}

/// How far a walk has come: the top-level nodes and the citation set that it
/// was begun with, the content fields rendered so far, and the failure that
/// ended it, if one did.
pub struct Progress {
    pub nodes: Seq<Node>,
    pub citations: Set<Seq<char>>,
    pub rendered: Seq<Seq<char>>,
    pub failure: Option<Failure>,
}

/// A walk before its first step. It has failed already where a node lacks a
/// child that the grammar guarantees.
pub open spec fn begun(nodes: Seq<Node>, citations: Set<Seq<char>>) -> Progress {
    Progress {
        nodes,
        citations,
        rendered: Seq::empty(),
        failure: if grammatical(nodes) {
            None
        } else {
            Some(Failure::GrammarViolation)
        },
    }
}

/// Whether the walk waits for the converter's reply on a content field.
pub open spec fn awaiting(p: Progress) -> bool {
    p.failure is None && p.rendered.len() < fields(p.nodes).len()
}

/// The content field that the walk has come to.
pub open spec fn current(p: Progress) -> Seq<Segment>
    recommends
        awaiting(p),
{
    fields(p.nodes)[p.rendered.len() as int]
}

/// What the driver does next: nothing more after a failure; else the
/// converter is asked for the next content field, in source order, with the
/// field's escaped text; and once every field is rendered, the document is
/// assembled.
pub open spec fn next_step(p: Progress) -> Step {
    match p.failure {
        Some(failure) => Step::Abort(failure),
        None => if awaiting(p) {
            Step::Convert(escaped(current(p)))
        } else {
            Step::Finish(assembled(p.nodes, p.rendered))
        },
    }
}

/// The walk after the converter's reply. A converted text is unescaped and
/// kept as the rendering of the current field. A failure ends the walk, and
/// is kept with the escaped text that caused it. A walk that is over stays
/// as it is.
pub open spec fn advanced(p: Progress, reply: Result<Seq<char>, Seq<char>>) -> Progress {
    if awaiting(p) {
        match reply {
            Ok(text) => Progress {
                nodes: p.nodes,
                citations: p.citations,
                rendered: p.rendered.push(unescaped(current(p), p.citations, text)),
                failure: None,
            },
            Err(reason) => Progress {
                nodes: p.nodes,
                citations: p.citations,
                rendered: p.rendered,
                failure: Some(Failure::ConversionFailure { input: escaped(current(p)), reason }),
            },
        }
    } else {
        p
    }
}

/// A walk over a document.
pub struct Exploration {
    nodes: Vec<Node>,
    citations: CitationSet,
    fields: Vec<Vec<Text>>,
    rendered: Vec<String>,
    failure: Option<Error>,
}

/// What an optional error holds.
pub open spec fn failure_view(failure: Option<Error>) -> Option<Failure> {
    match failure {
        Some(error) => Some(error@),
        None => None,
    }
}

impl View for Exploration {
    type V = Progress;

    closed spec fn view(&self) -> Progress {
        Progress {
            nodes: self.nodes@,
            citations: self.citations@,
            rendered: texts(self.rendered@),
            failure: failure_view(self.failure),
        }
    }
}

fn copy_error(error: &Error) -> (copy: Error)
    ensures
        copy@ == error@,
{
    match error {
        Error::GrammarViolation => Error::GrammarViolation,
        Error::ConversionFailure { input, reason } => Error::ConversionFailure {
            input: input.clone(),
            reason: reason.clone(),
        },
    }
}

/// Begins the walk over the top-level nodes `nodes`.
pub fn explore(nodes: Vec<Node>, citations: CitationSet) -> (walk: Exploration)
    ensures
        walk@ == begun(nodes@, citations@),
{
    let found = collect_fields(&nodes);
    let walk = match found {
        Some(fields) => Exploration { nodes, citations, fields, rendered: Vec::new(), failure: None },
        None => Exploration {
            nodes,
            citations,
            fields: Vec::new(),
            rendered: Vec::new(),
            failure: Some(Error::GrammarViolation),
        },
    };
    proof {
        assert(walk@.rendered =~= Seq::<Seq<char>>::empty());
    }
    walk
}

impl Exploration {
    #[verifier::type_invariant]
    spec fn sound(&self) -> bool {
        self.failure is None ==> {
            &&& field_views(self.fields@) == fields(self.nodes@)
            &&& self.rendered.len() <= self.fields.len()
        }
    }

    /// What the driver does next.
    pub fn action(&self) -> (action: Action)
        ensures
            action@ == next_step(self@),
    {
        proof {
            use_type_invariant(self);
        }
        match &self.failure {
            Some(error) => Action::Abort(copy_error(error)),
            None => {
                let at = self.rendered.len();
                if at < self.fields.len() {
                    Action::Convert(build_id_string(&self.fields[at]))
                } else {
                    Action::Finish(assemble(&self.nodes, &self.rendered))
                }
            },
        }
    }

    /// Takes the converter's reply on the content field that the walk has
    /// come to, and gives the walk after it with what the driver does next.
    pub fn step(self, reply: Result<String, String>) -> (next: (Exploration, Action))
        ensures
            next.0@ == advanced(self@, reply_view(reply)),
            next.1@ == next_step(next.0@),
    {
        proof {
            use_type_invariant(&self);
        }
        let at = self.rendered.len();
        let walk = if self.failure.is_none() && at < self.fields.len() {
            let Exploration { nodes, citations, fields, mut rendered, failure } = self;
            match reply {
                Ok(text) => {
                    let ghost before = rendered@;
                    let field = unescape(&fields[at], &citations, text);
                    rendered.push(field);
                    proof {
                        assert(texts(rendered@) =~= texts(before).push(field@));
                    }
                    Exploration { nodes, citations, fields, rendered, failure: None }
                },
                Err(reason) => {
                    let input = build_id_string(&fields[at]);
                    Exploration {
                        nodes,
                        citations,
                        fields,
                        rendered,
                        failure: Some(Error::ConversionFailure { input, reason }),
                    }
                },
            }
        } else {
            self
        };
        let action = walk.action();
        (walk, action)
    }
}


/// The walk after the converter's replies `replies`, taken in order.
pub open spec fn fed(p: Progress, replies: Seq<Result<Seq<char>, Seq<char>>>) -> Progress
    decreases replies.len(),
{
    if replies.len() == 0 {
        p
    } else {
        advanced(fed(p, replies.drop_last()), replies.last())
    }
}

/// What the content fields of `nodes` render as where the converter made
/// `texts` of their escaped texts, the first of the one for the first field
/// and so on.
pub open spec fn renderings(
    nodes: Seq<Node>,
    citations: Set<Seq<char>>,
    texts: Seq<Seq<char>>,
) -> Seq<Seq<char>> {
    Seq::new(texts.len(), |i: int| unescaped(fields(nodes)[i], citations, texts[i]))
}

/// The replies of a converter that converts every text: `texts`, each as a
/// success.
pub open spec fn successes(texts: Seq<Seq<char>>) -> Seq<Result<Seq<char>, Seq<char>>> {
    Seq::new(texts.len(), |i: int| Ok(texts[i]))
}

/// A walk that has failed stays as it is, whatever the converter replies:
/// there is nothing more to do and no document.
pub proof fn failure_is_final(p: Progress, replies: Seq<Result<Seq<char>, Seq<char>>>)
    requires
        p.failure is Some,
    ensures
        fed(p, replies) == p,
        next_step(fed(p, replies)) == Step::Abort(p.failure->Some_0),
    decreases replies.len(),
{
    if replies.len() > 0 {
        failure_is_final(p, replies.drop_last());
    }
}

/// A tree that lacks a child that the grammar guarantees is refused before
/// the converter is asked anything.
pub proof fn violation_aborts(
    nodes: Seq<Node>,
    citations: Set<Seq<char>>,
    replies: Seq<Result<Seq<char>, Seq<char>>>,
)
    requires
        !grammatical(nodes),
    ensures
        next_step(fed(begun(nodes, citations), replies)) == Step::Abort(Failure::GrammarViolation),
{
    failure_is_final(begun(nodes, citations), replies);
}

/// Where the converter fails on a content field, the walk is over: whatever
/// is replied after that, there is no document, and the failure holds the
/// escaped text of that field and the converter's reason.
pub proof fn failed_field_aborts(
    p: Progress,
    reason: Seq<char>,
    later: Seq<Result<Seq<char>, Seq<char>>>,
)
    requires
        awaiting(p),
    ensures
        next_step(fed(advanced(p, Err(reason)), later)) == Step::Abort(
            Failure::ConversionFailure { input: escaped(current(p)), reason },
        ),
{
    failure_is_final(advanced(p, Err(reason)), later);
}

/// While the converter converts, the walk asks for the content fields one by
/// one in source order: after the first `texts.len()` fields it has their
/// renderings, and no failure.
pub proof fn converted_fields_are_kept(
    nodes: Seq<Node>,
    citations: Set<Seq<char>>,
    texts: Seq<Seq<char>>,
)
    requires
        grammatical(nodes),
        texts.len() <= fields(nodes).len(),
    ensures
        fed(begun(nodes, citations), successes(texts)) == (Progress {
            nodes,
            citations,
            rendered: renderings(nodes, citations, texts),
            failure: None,
        }),
    decreases texts.len(),
{
    let start = begun(nodes, citations);
    if texts.len() == 0 {
        assert(renderings(nodes, citations, texts) =~= Seq::<Seq<char>>::empty());
    } else {
        let fewer = texts.drop_last();
        converted_fields_are_kept(nodes, citations, fewer);
        assert(successes(texts).drop_last() =~= successes(fewer));
        assert(successes(texts).last() == Ok::<Seq<char>, Seq<char>>(texts.last()));
        assert(renderings(nodes, citations, texts) =~= renderings(nodes, citations, fewer).push(
            unescaped(fields(nodes)[fewer.len() as int], citations, texts.last()),
        ));
    }
}

/// Before every content field is converted, the next thing to do is to hand
/// the escaped text of the next field to the converter: once for each field,
/// and in source order.
pub proof fn next_field_is_asked(nodes: Seq<Node>, citations: Set<Seq<char>>, texts: Seq<Seq<char>>)
    requires
        grammatical(nodes),
        texts.len() < fields(nodes).len(),
    ensures
        next_step(fed(begun(nodes, citations), successes(texts))) == Step::Convert(
            escaped(fields(nodes)[texts.len() as int]),
        ),
{
    converted_fields_are_kept(nodes, citations, texts);
}

/// Once the converter has converted every content field, the document is
/// assembled from their renderings.
pub proof fn all_converted_finishes(nodes: Seq<Node>, citations: Set<Seq<char>>, texts: Seq<Seq<char>>)
    requires
        grammatical(nodes),
        texts.len() == fields(nodes).len(),
    ensures
        next_step(fed(begun(nodes, citations), successes(texts))) == Step::Finish(
            assembled(nodes, renderings(nodes, citations, texts)),
        ),
{
    converted_fields_are_kept(nodes, citations, texts);
}

} // verus!

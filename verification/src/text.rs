//! Inline content as a sequence of segments: literal text, and opaque tokens
//! that the converter must not touch.

use vstd::prelude::*;
use vstd::string::StringExecFns;
use crate::citations::CitationSet;
use crate::error::{Error, Failure};
use crate::strings::{
    decimal, decimal_injective, drop_whitespace, from_chars, is_whitespace, occurs_at,
    push_decimal, replace, replaced, replaced_single_match, skip_leading, skip_whitespace,
    to_chars, trimmed, whitespace, without_leading,
};

verus! {

/// One segment of inline content.
#[derive(Debug, Clone)]
pub enum Text {
    /// Literal text, for the converter to format.
    Raw(String),
    /// A citation key as the source spells it.
    Citation(String),
    /// Finished output, to be inserted as it is.
    Latex(String),
}

/// What a segment holds, as mathematics.
pub enum Segment {
    Raw(Seq<char>),
    Citation(Seq<char>),
    Latex(Seq<char>),
}

impl View for Text {
    type V = Segment;

    open spec fn view(&self) -> Segment {
        match *self {
            Text::Raw(s) => Segment::Raw(s@),
            Text::Citation(s) => Segment::Citation(s@),
            Text::Latex(s) => Segment::Latex(s@),
        }
    }
}

/// What a sequence of segments holds.
pub open spec fn views(v: Seq<Text>) -> Seq<Segment> {
    v.map_values(|t: Text| t@)
}


/// Whether a segment is opaque: one that the converter must not touch.
pub open spec fn is_opaque(seg: Segment) -> bool {
    !(seg is Raw)
}

/// How many opaque segments `segs` holds.
pub open spec fn opaque_count(segs: Seq<Segment>) -> nat
    decreases segs.len(),
{
    if segs.len() == 0 {
        0
    } else if is_opaque(segs.last()) {
        opaque_count(segs.drop_last()) + 1
    } else {
        opaque_count(segs.drop_last())
    }
}

/// The word that wraps the index in a placeholder token.
pub open spec fn sentinel() -> Seq<char> {
    "identifier"@
}

/// The placeholder token of the opaque segment with the given index: the
/// sentinel, the index in decimal, and the sentinel again.
pub open spec fn placeholder(index: nat) -> Seq<char> {
    sentinel() + decimal(index) + sentinel()
}

/// What stands for the last segment of `segs` in the escaped text: a raw
/// segment's own text, or the placeholder token of an opaque one, whose index
/// is its rank among the opaque segments, counted from one.
pub open spec fn escaped_last(segs: Seq<Segment>) -> Seq<char>
    recommends
        segs.len() > 0,
{
    match segs.last() {
        Segment::Raw(t) => t,
        _ => placeholder(opaque_count(segs)),
    }
}

/// The text that is handed to the converter for `segs`.
pub open spec fn escaped(segs: Seq<Segment>) -> Seq<char>
    decreases segs.len(),
{
    if segs.len() == 0 {
        Seq::empty()
    } else {
        escaped(segs.drop_last()) + escaped_last(segs)
    }
}

/// A citation key without its markers and the white space around it.
pub open spec fn canonical(key: Seq<char>) -> Seq<char> {
    trimmed(without_leading(key, '@'))
}

/// Whether a citation key, as the source spells it, ends in white space.
pub open spec fn has_trailing_whitespace(key: Seq<char>) -> bool {
    key.len() > 0 && is_whitespace(key.last())
}

/// The reference that a canonical key renders as: a bibliography citation
/// where the citation set holds the key, a cross-reference where it does not.
pub open spec fn reference(canon: Seq<char>, citations: Set<Seq<char>>) -> Seq<char> {
    if citations.contains(canon) {
        "\\cite{"@ + canon + "}"@
    } else {
        "\\ref{"@ + canon + "}"@
    }
}

/// What a citation key renders as: the reference of its canonical key, and
/// exactly one space after it where the key itself ends in white space,
/// however much of it.
pub open spec fn resolved(key: Seq<char>, citations: Set<Seq<char>>) -> Seq<char> {
    if has_trailing_whitespace(key) {
        reference(canonical(key), citations) + " "@
    } else {
        reference(canonical(key), citations)
    }
}

/// What an opaque segment is replaced by in the converted text.
pub open spec fn value(seg: Segment, citations: Set<Seq<char>>) -> Seq<char> {
    match seg {
        Segment::Raw(t) => t,
        Segment::Citation(key) => resolved(key, citations),
        Segment::Latex(content) => content,
    }
}

/// The converted text `text` with the placeholder tokens of `segs` replaced by
/// the values of their segments, one opaque segment after the other in index
/// order, each replacement applied to the result of the one before.
pub open spec fn unescaped(segs: Seq<Segment>, citations: Set<Seq<char>>, text: Seq<char>) -> Seq<
    char,
>
    decreases segs.len(),
{
    if segs.len() == 0 {
        text
    } else if is_opaque(segs.last()) {
        replaced(
            unescaped(segs.drop_last(), citations, text),
            placeholder(opaque_count(segs)),
            value(segs.last(), citations),
        )
    } else {
        unescaped(segs.drop_last(), citations, text)
    }
}

/// The placeholder token of the opaque segment with index `count`.
pub fn unique_id(count: usize) -> (id: String)
    ensures
        id@ == placeholder(count as nat),
{
    let mut id = String::from_str("identifier");
    push_decimal(&mut id, count);
    id.append("identifier");
    id
}

/// What the citation key `key` renders as against `citations`.
pub fn key_to_str(key: &str, citations: &CitationSet) -> (rendered: String)
    ensures
        rendered@ == resolved(key@, citations@),
{
    let v = to_chars(key);
    let start = skip_leading(&v, '@');
    let lo = skip_whitespace(&v, start, v.len());
    let hi = drop_whitespace(&v, lo, v.len());
    let canon = from_chars(&v, lo, hi);
    proof {
        assert(v@.skip(start as int) =~= v@.subrange(start as int, v@.len() as int));
    }
    let mut rendered = if citations.contains(canon.as_str()) {
        String::from_str("\\cite{")
    } else {
        String::from_str("\\ref{")
    };
    rendered.append(canon.as_str());
    rendered.append("}");
    if v.len() > 0 && whitespace(v[v.len() - 1]) {
        rendered.append(" ");
    }
    rendered
}

/// The text that is handed to the converter for `vec`: raw segments as they
/// are, and for each opaque segment its placeholder token.
pub fn build_id_string(vec: &Vec<Text>) -> (result: String)
    ensures
        result@ == escaped(views(vec@)),
{
    let mut result = String::new();
    let mut count: usize = 0;
    let mut i: usize = 0;
    proof {
        assert(views(vec@).take(0) =~= Seq::<Segment>::empty());
    }
    while i < vec.len()
        invariant
            i <= vec.len(),
            count == opaque_count(views(vec@).take(i as int)),
            count <= i,
            result@ == escaped(views(vec@).take(i as int)),
        decreases vec.len() - i,
    {
        proof {
            assert(views(vec@).take(i + 1).drop_last() =~= views(vec@).take(i as int));
            assert(views(vec@).take(i + 1).last() == vec@[i as int]@);
        }
        match &vec[i] {
            Text::Raw(content) => {
                result.append(content.as_str());
            },
            Text::Citation(_) | Text::Latex(_) => {
                count += 1;
                let id = unique_id(count);
                result.append(id.as_str());
            },
        }
        i += 1;
    }
    proof {
        assert(views(vec@).take(vec@.len() as int) =~= views(vec@));
    }
    result
}

/// The converted text `text` with the placeholder token of each opaque
/// segment of `vec` replaced, wherever it occurs, by the value of that
/// segment: a citation's reference, or finished output as it is.
pub fn unescape(vec: &Vec<Text>, citations: &CitationSet, text: String) -> (result: String)
    ensures
        result@ == unescaped(views(vec@), citations@, text@),
{
    let mut latex_string = text;
    let mut count: usize = 0;
    let mut i: usize = 0;
    proof {
        assert(views(vec@).take(0) =~= Seq::<Segment>::empty());
    }
    while i < vec.len()
        invariant
            i <= vec.len(),
            count == opaque_count(views(vec@).take(i as int)),
            count <= i,
            latex_string@ == unescaped(views(vec@).take(i as int), citations@, text@),
        decreases vec.len() - i,
    {
        proof {
            assert(views(vec@).take(i + 1).drop_last() =~= views(vec@).take(i as int));
            assert(views(vec@).take(i + 1).last() == vec@[i as int]@);
        }
        match &vec[i] {
            Text::Citation(key) => {
                count += 1;
                let id = unique_id(count);
                let value = key_to_str(key.as_str(), citations);
                latex_string = replace(latex_string.as_str(), id.as_str(), value.as_str());
            },
            Text::Latex(content) => {
                count += 1;
                let id = unique_id(count);
                latex_string = replace(latex_string.as_str(), id.as_str(), content.as_str());
            },
            Text::Raw(_) => {},
        }
        i += 1;
    }
    proof {
        assert(views(vec@).take(vec@.len() as int) =~= views(vec@));
    }
    latex_string
}

/// What the converter made of a content field, as mathematics.
pub open spec fn reply_view(converted: Result<String, String>) -> Result<Seq<char>, Seq<char>> {
    match converted {
        Ok(text) => Ok(text@),
        Err(reason) => Err(reason@),
    }
}

/// What a content field renders as, given what the converter made of its
/// escaped text. Where the converter succeeded, the placeholder tokens in its
/// output are replaced by the values of their segments. Where it failed,
/// nothing is rendered: the failure is handed on with the escaped text that
/// caused it.
pub open spec fn rendered(
    segs: Seq<Segment>,
    citations: Set<Seq<char>>,
    converted: Result<Seq<char>, Seq<char>>,
) -> Result<Seq<char>, Failure> {
    match converted {
        Ok(text) => Ok(unescaped(segs, citations, text)),
        Err(reason) => Err(Failure::ConversionFailure { input: escaped(segs), reason }),
    }
}

/// What an outcome holds.
pub open spec fn outcome_view(result: Result<String, Error>) -> Result<Seq<char>, Failure> {
    match result {
        Ok(text) => Ok(text@),
        Err(error) => Err(error@),
    }
}

/// What a content field renders as, given what the converter made of its
/// escaped text.
pub fn to_latex(vec: Vec<Text>, citations: &CitationSet, converted: Result<String, String>) -> (result:
    Result<String, Error>)
    ensures
        outcome_view(result) == rendered(views(vec@), citations@, reply_view(converted)),
{
    match converted {
        Ok(text) => Ok(unescape(&vec, citations, text)),
        Err(reason) => Err(Error::ConversionFailure { input: build_id_string(&vec), reason }),
    }
}


/// Where the placeholder tokens stand in the escaped text of `segs`: for each
/// opaque segment, in order, the offset at which its token starts.
pub open spec fn placeholder_offsets(segs: Seq<Segment>) -> Seq<int>
    decreases segs.len(),
{
    if segs.len() == 0 {
        Seq::empty()
    } else if is_opaque(segs.last()) {
        placeholder_offsets(segs.drop_last()).push(escaped(segs.drop_last()).len() as int)
    } else {
        placeholder_offsets(segs.drop_last())
    }
}

/// The raw text of `segs`: its raw segments one after the other.
pub open spec fn raw_text(segs: Seq<Segment>) -> Seq<char>
    decreases segs.len(),
{
    if segs.len() == 0 {
        Seq::empty()
    } else {
        match segs.last() {
            Segment::Raw(t) => raw_text(segs.drop_last()) + t,
            _ => raw_text(segs.drop_last()),
        }
    }
}

/// The length of the placeholder tokens with the indices one to `k`, taken
/// together.
pub open spec fn placeholders_len(k: nat) -> nat
    decreases k,
{
    if k == 0 {
        0
    } else {
        placeholders_len((k - 1) as nat) + placeholder(k).len()
    }
}

/// The escaped text of a longer sequence starts with the escaped text of
/// each of its beginnings.
pub proof fn escaped_extends(segs: Seq<Segment>, n: int)
    requires
        0 <= n <= segs.len(),
    ensures
        escaped(segs.take(n)).len() <= escaped(segs).len(),
        escaped(segs).subrange(0, escaped(segs.take(n)).len() as int) == escaped(segs.take(n)),
    decreases segs.len(),
{
    if n == segs.len() {
        assert(segs.take(n) =~= segs);
        assert(escaped(segs).subrange(0, escaped(segs).len() as int) =~= escaped(segs));
    } else {
        escaped_extends(segs.drop_last(), n);
        assert(segs.drop_last().take(n) =~= segs.take(n));
        let shorter = escaped(segs.drop_last());
        let part = escaped(segs.take(n));
        assert(escaped(segs).subrange(0, part.len() as int) =~= shorter.subrange(
            0,
            part.len() as int,
        ));
    }
}

/// The escaped text of a sequence with `k` opaque segments holds exactly `k`
/// placeholder tokens beside its raw text: the token with index `j` is
/// written for the `j`-th opaque segment, each token starts after the end of
/// the one before, and what the tokens do not cover is as long as the raw
/// text.
pub proof fn escaped_holds_each_placeholder(segs: Seq<Segment>)
    ensures
        placeholder_offsets(segs).len() == opaque_count(segs),
        forall|j: int|
            0 <= j < opaque_count(segs) ==> occurs_at(
                escaped(segs),
                placeholder((j + 1) as nat),
                #[trigger] placeholder_offsets(segs)[j],
            ),
        forall|i: int, j: int|
            0 <= i < j < opaque_count(segs) ==> placeholder_offsets(segs)[i] + placeholder(
                (i + 1) as nat,
            ).len() <= placeholder_offsets(segs)[j],
        escaped(segs).len() == raw_text(segs).len() + placeholders_len(opaque_count(segs)),
    decreases segs.len(),
{
    if segs.len() > 0 {
        let before = segs.drop_last();
        let k = opaque_count(before);
        escaped_holds_each_placeholder(before);
        let text = escaped(segs);
        let shorter = escaped(before);
        assert(text.subrange(0, shorter.len() as int) =~= shorter);
        assert forall|j: int| 0 <= j < k implies occurs_at(
            text,
            placeholder((j + 1) as nat),
            #[trigger] placeholder_offsets(segs)[j],
        ) by {
            let at = placeholder_offsets(before)[j];
            let token = placeholder((j + 1) as nat);
            assert(occurs_at(shorter, token, at));
            assert(text.subrange(at, at + token.len()) =~= shorter.subrange(
                at,
                at + token.len(),
            ));
        }
        if is_opaque(segs.last()) {
            let token = placeholder(k + 1);
            assert(text.subrange(shorter.len() as int, (shorter.len() + token.len()) as int) =~= token);
            assert forall|i: int, j: int| 0 <= i < j < k + 1 implies placeholder_offsets(segs)[i]
                + placeholder((i + 1) as nat).len() <= placeholder_offsets(segs)[j] by {
                if j == k {
                    assert(occurs_at(
                        shorter,
                        placeholder((i + 1) as nat),
                        placeholder_offsets(before)[i],
                    ));
                }
            }
        }
    }
}

/// Placeholder tokens with different indices are different texts.
pub proof fn placeholders_differ(i: nat, j: nat)
    requires
        placeholder(i) == placeholder(j),
    ensures
        i == j,
{
    let s = sentinel();
    let a = decimal(i);
    let b = decimal(j);
    assert((s + a + s).len() == (s + b + s).len());
    assert(a.len() == b.len());
    assert(a =~= (s + a + s).subrange(s.len() as int, (s.len() + a.len()) as int));
    assert(b =~= (s + b + s).subrange(s.len() as int, (s.len() + b.len()) as int));
    decimal_injective(i, j);
}

/// Two keys with the same canonical key render as the same text against one
/// citation set, wherever they stand, provided that both end in white space
/// or neither does.
pub proof fn same_key_same_rendering(first: Seq<char>, second: Seq<char>, citations: Set<Seq<char>>)
    requires
        canonical(first) == canonical(second),
        has_trailing_whitespace(first) == has_trailing_whitespace(second),
    ensures
        resolved(first, citations) == resolved(second, citations),
        value(Segment::Citation(first), citations) == value(
            Segment::Citation(second),
            citations,
        ),
{
}

/// The opaque segments of `segs`, in order.
pub open spec fn opaque_part(segs: Seq<Segment>) -> Seq<Segment>
    decreases segs.len(),
{
    if segs.len() == 0 {
        Seq::empty()
    } else if is_opaque(segs.last()) {
        opaque_part(segs.drop_last()).push(segs.last())
    } else {
        opaque_part(segs.drop_last())
    }
}

/// Raw segments take no part in unescaping: only the opaque segments and
/// their order count.
pub proof fn unescaped_ignores_raw(segs: Seq<Segment>, citations: Set<Seq<char>>, text: Seq<char>)
    ensures
        opaque_part(segs).len() == opaque_count(segs),
        opaque_count(opaque_part(segs)) == opaque_count(segs),
        unescaped(opaque_part(segs), citations, text) == unescaped(segs, citations, text),
    decreases segs.len(),
{
    if segs.len() > 0 {
        unescaped_ignores_raw(segs.drop_last(), citations, text);
        if is_opaque(segs.last()) {
            let part = opaque_part(segs);
            assert(part.drop_last() =~= opaque_part(segs.drop_last()));
            assert(part.last() == segs.last());
        }
    }
}

/// Two citations with the same canonical key in one content field are both
/// replaced by the same text, each where its own token stands, whatever
/// their order in the converted text. The field's opaque segments are these
/// two citations; the converted text holds the first token once, after
/// `before_first`, and once that is replaced, the text holds the second
/// token once, after `before_second`.
pub proof fn equal_keys_are_both_replaced(
    segs: Seq<Segment>,
    citations: Set<Seq<char>>,
    first: Seq<char>,
    second: Seq<char>,
    before_first: Seq<char>,
    after_first: Seq<char>,
    before_second: Seq<char>,
    after_second: Seq<char>,
)
    requires
        opaque_part(segs) == seq![Segment::Citation(first), Segment::Citation(second)],
        canonical(first) == canonical(second),
        has_trailing_whitespace(first) == has_trailing_whitespace(second),
        forall|at: int|
            occurs_at(before_first + placeholder(1) + after_first, placeholder(1), at) ==> at
                == before_first.len(),
        before_first + resolved(first, citations) + after_first == before_second + placeholder(2)
            + after_second,
        forall|at: int|
            occurs_at(before_second + placeholder(2) + after_second, placeholder(2), at) ==> at
                == before_second.len(),
    ensures
        resolved(first, citations) == resolved(second, citations),
        unescaped(segs, citations, before_first + placeholder(1) + after_first) == before_second
            + resolved(first, citations) + after_second,
{
    let text = before_first + placeholder(1) + after_first;
    let both = seq![Segment::Citation(first), Segment::Citation(second)];
    let value = resolved(first, citations);
    unescaped_ignores_raw(segs, citations, text);
    reveal_with_fuel(unescaped, 3);
    reveal_with_fuel(opaque_count, 3);
    assert(both.drop_last() =~= seq![Segment::Citation(first)]);
    assert(both.drop_last().drop_last() =~= Seq::<Segment>::empty());
    assert(opaque_count(both.drop_last()) == 1);
    assert(opaque_count(both) == 2);
    assert(sentinel().len() > 0) by {
        reveal_strlit("identifier");
    }
    assert(unescaped(both.drop_last(), citations, text) == replaced(text, placeholder(1), value));
    replaced_single_match(before_first, placeholder(1), value, after_first);
    replaced_single_match(before_second, placeholder(2), value, after_second);
}


/// What a citation key renders as ends in a space if and only if the key
/// ends in white space, and never in more than one: a closing brace stands
/// before that space.
pub proof fn resolved_ends_in_one_space(key: Seq<char>, citations: Set<Seq<char>>)
    ensures
        resolved(key, citations).len() >= 2,
        resolved(key, citations).last() == ' ' <==> has_trailing_whitespace(key),
        has_trailing_whitespace(key) ==> resolved(key, citations)[resolved(
            key,
            citations,
        ).len() - 2] == '}',
        !has_trailing_whitespace(key) ==> resolved(key, citations).last() == '}',
{
    reveal_strlit("}");
    reveal_strlit(" ");
    reveal_strlit("\\cite{");
    reveal_strlit("\\ref{");
    let body = reference(canonical(key), citations);
    assert(body.len() >= 2);
    assert(body.last() == '}');
    if has_trailing_whitespace(key) {
        let all = body + " "@;
        assert(all.last() == ' ');
        assert(all[all.len() - 2] == body.last());
    }
}

/// Content without any segment is escaped to the empty text, and whatever the
/// converter makes of that is its rendering.
pub proof fn nothing_to_escape(citations: Set<Seq<char>>, text: Seq<char>)
    ensures
        escaped(Seq::<Segment>::empty()) == Seq::<char>::empty(),
        unescaped(Seq::<Segment>::empty(), citations, text) == text,
{
}

} // verus!

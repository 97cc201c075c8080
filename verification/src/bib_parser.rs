//! The keys that a bibliography declares, read line by line.

use vstd::prelude::*;
use crate::citations::CitationSet;
use crate::document::text_of;
use crate::strings::{
    drop_whitespace, from_chars, occurs_at, skip_whitespace, to_chars, trim, trimmed,
};

verus! {

/// What `Regex::captures` of the crate regex finds: the text of capture group
/// `group` in the leftmost match of the regular expression `pattern` in
/// `text`. There is none where the expression does not compile, where it
/// matches nowhere in the text, or where the group took no part in the
/// match.
pub uninterp spec fn captured(pattern: Seq<char>, text: Seq<char>, group: nat) -> Option<
    Seq<char>,
>;

/// `Regex::new`, `Regex::captures` and `Captures::get` of the crate regex, one
/// after the other. The contract names the result and says nothing more of
/// it.
#[verifier::external_body]
fn capture(pattern: &str, text: &str, group: usize) -> (found: Option<String>)
    ensures
        text_of(found) == captured(pattern@, text@, group as nat),
{
    let re = match regex::Regex::new(pattern) {
        Ok(re) => re,
        Err(_) => return None,
    };
    match re.captures(text) {
        Some(groups) => match groups.get(group) {
            Some(found) => Some(found.as_str().to_string()),
            None => None,
        },
        None => None,
    }
}

/// The regular expression of a line that opens an entry: the entry's type
/// after `@`, an opening brace, the key up to the first comma, and nothing
/// but white space after that comma.
pub open spec fn entry_pattern() -> Seq<char> {
    "@\\w+\\{([^,]+),\\s*$"@
}

/// The offset of the first `c` in `s`, or the length of `s` where there is
/// none.
pub open spec fn first_of(s: Seq<char>, c: char) -> int
    decreases s.len(),
{
    if s.len() == 0 || s[0] == c {
        0
    } else {
        1 + first_of(s.skip(1), c)
    }
}

/// Whether an entry of this line declares no key: a line that does not start
/// with `@`, or that opens a comment or a preamble.
pub open spec fn declares_nothing(line: Seq<char>) -> bool {
    ||| !occurs_at(line, "@"@, 0)
    ||| occurs_at(line, "@comment"@, 0)
    ||| occurs_at(line, "@preamble"@, 0)
}

/// The key of a line that opens an entry in any other form than the regular
/// expression describes. It is the text between the first opening brace and
/// the first comma, without the white space around it, or the text after the
/// brace where the line has no comma and does not close the entry. There is
/// none where that text is empty, where the line has no brace, or where its
/// first comma stands before the brace.
pub open spec fn loose_key(line: Seq<char>) -> Option<Seq<char>> {
    let brace = first_of(line, '{');
    let comma = first_of(line, ',');
    if declares_nothing(line) || brace >= line.len() {
        None
    } else if comma < line.len() {
        if comma <= brace || trimmed(line.subrange(brace + 1, comma)).len() == 0 {
            None
        } else {
            Some(trimmed(line.subrange(brace + 1, comma)))
        }
    } else {
        let rest = trimmed(line.subrange(brace + 1, line.len() as int));
        if rest.len() == 0 || rest.last() == '}' {
            None
        } else {
            Some(rest)
        }
    }
}

/// The key that a line declares, if it declares one. `line` is the line
/// without the white space around it, and `found` is what the regular
/// expression of an entry captured in it. An empty line and a comment, which
/// starts with `%`, declare nothing. Else the captured text is the key,
/// without the white space around it; and where nothing was captured, the
/// line is read loosely.
pub open spec fn key_of(line: Seq<char>, found: Option<Seq<char>>) -> Option<Seq<char>> {
    if line.len() == 0 || line[0] == '%' {
        None
    } else {
        match found {
            Some(text) => Some(trimmed(text)),
            None => loose_key(line),
        }
    }
}

/// The key that a line of the bibliography declares, if it declares one.
pub open spec fn line_key(line: Seq<char>) -> Option<Seq<char>> {
    key_of(trimmed(line), captured(entry_pattern(), trimmed(line), 1))
}

/// The keys that a bibliography declares: those of its lines.
pub open spec fn bib_keys(content: Seq<char>) -> Set<Seq<char>>
    decreases content.len(),
{
    let end = first_of(content, '\n');
    let rest = if 0 <= end < content.len() {
        bib_keys(content.skip(end + 1))
    } else {
        Set::empty()
    };
    match line_key(content.take(end)) {
        Some(key) => rest.insert(key),
        None => rest,
    }
}

proof fn first_of_bounds(s: Seq<char>, c: char)
    ensures
        0 <= first_of(s, c) <= s.len(),
        first_of(s, c) < s.len() ==> s[first_of(s, c)] == c,
        forall|k: int| 0 <= k < first_of(s, c) ==> s[k] != c,
    decreases s.len(),
{
    if s.len() > 0 && s[0] != c {
        first_of_bounds(s.skip(1), c);
        assert forall|k: int| 0 <= k < first_of(s, c) implies s[k] != c by {
            if k > 0 {
                assert(s[k] == s.skip(1)[k - 1]);
            }
        }
    }
}

/// The offset of the first `c` in `v[lo..hi]`, counted from `lo`, or the
/// length of this range where there is none.
fn find_char(v: &Vec<char>, lo: usize, hi: usize, c: char) -> (at: usize)
    requires
        lo <= hi <= v.len(),
    ensures
        at == first_of(v@.subrange(lo as int, hi as int), c),
        lo + at <= hi,
{
    let ghost s = v@.subrange(lo as int, hi as int);
    let mut i: usize = lo;
    proof {
        assert(s.skip(0) =~= s);
    }
    while i < hi && v[i] != c
        invariant
            lo <= i <= hi <= v.len(),
            s == v@.subrange(lo as int, hi as int),
            first_of(s, c) == (i - lo) + first_of(s.skip(i - lo), c),
        decreases hi - i,
    {
        proof {
            assert(s.skip(i - lo).skip(1) =~= s.skip(i - lo + 1));
        }
        i += 1;
    }
    i - lo
}

fn starts_with(v: &Vec<char>, prefix: &str) -> (b: bool)
    ensures
        b == occurs_at(v@, prefix@, 0),
{
    let p = to_chars(prefix);
    if p.len() > v.len() {
        return false;
    }
    let mut j: usize = 0;
    while j < p.len()
        invariant
            p.len() <= v.len(),
            j <= p.len(),
            p@ == prefix@,
            forall|k: int| 0 <= k < j ==> v@[k] == p@[k],
        decreases p.len() - j,
    {
        if v[j] != p[j] {
            proof {
                assert(v@.subrange(0, p@.len() as int)[j as int] == v@[j as int]);
            }
            return false;
        }
        j += 1;
    }
    proof {
        assert(v@.subrange(0, p@.len() as int) =~= p@);
    }
    true
}

fn trimmed_range(v: &Vec<char>, lo: usize, hi: usize) -> (text: String)
    requires
        lo <= hi <= v.len(),
    ensures
        text@ == trimmed(v@.subrange(lo as int, hi as int)),
{
    let from = skip_whitespace(v, lo, hi);
    let to = drop_whitespace(v, from, hi);
    from_chars(v, from, to)
}

fn loose(v: &Vec<char>) -> (key: Option<String>)
    ensures
        text_of(key) == loose_key(v@),
{
    if !starts_with(v, "@") || starts_with(v, "@comment") || starts_with(v, "@preamble") {
        return None;
    }
    proof {
        assert(v@.subrange(0, v@.len() as int) =~= v@);
    }
    let brace = find_char(v, 0, v.len(), '{');
    let comma = find_char(v, 0, v.len(), ',');
    if brace >= v.len() {
        return None;
    }
    if comma < v.len() {
        if comma <= brace {
            return None;
        }
        let key = trimmed_range(v, brace + 1, comma);
        if key.as_str().is_empty() {
            None
        } else {
            Some(key)
        }
    } else {
        let key = trimmed_range(v, brace + 1, v.len());
        let chars = to_chars(key.as_str());
        if chars.len() == 0 || chars[chars.len() - 1] == '}' {
            None
        } else {
            Some(key)
        }
    }
}

/// The key that a line declares, if it declares one, given the line without
/// the white space around it and what the regular expression of an entry
/// captured in it.
pub fn entry_key(line: &str, found: Option<String>) -> (key: Option<String>)
    ensures
        text_of(key) == key_of(line@, text_of(found)),
{
    let v = to_chars(line);
    if v.len() == 0 || v[0] == '%' {
        return None;
    }
    match found {
        Some(text) => Some(trim(text.as_str())),
        None => loose(&v),
    }
}

/// The keys that a bibliography declares.
pub fn parse_bib(content: &str) -> (citations: CitationSet)
    ensures
        citations@ == bib_keys(content@),
{
    let v = to_chars(content);
    let mut citations = CitationSet::new();
    let mut pos: usize = 0;
    let mut done = false;
    proof {
        assert(v@.skip(0) =~= v@);
        assert(citations@.union(bib_keys(v@)) =~= bib_keys(v@));
    }
    while !done
        invariant
            pos <= v.len(),
            v@ == content@,
            !done ==> citations@.union(bib_keys(v@.skip(pos as int))) == bib_keys(v@),
            done ==> citations@ == bib_keys(v@),
        decreases v.len() - pos + (if done { 0int } else { 1int }),
    {
        let ghost rest = v@.skip(pos as int);
        let ghost before = citations@;
        proof {
            assert(v@.subrange(pos as int, v@.len() as int) =~= rest);
            first_of_bounds(rest, '\n');
        }
        let len = find_char(&v, pos, v.len(), '\n');
        let end = pos + len;
        proof {
            assert(v@.subrange(pos as int, end as int) =~= rest.take(len as int));
        }
        let line = trimmed_range(&v, pos, end);
        let found = capture("@\\w+\\{([^,]+),\\s*$", line.as_str(), 1);
        match entry_key(line.as_str(), found) {
            Some(key) => {
                citations.insert(key);
            },
            None => {},
        }
        if end < v.len() {
            proof {
                assert(rest.skip(len + 1) =~= v@.skip(end + 1));
                assert(citations@.union(bib_keys(v@.skip(end + 1))) =~= before.union(
                    bib_keys(rest),
                ));
            }
            pos = end + 1;
        } else {
            proof {
                assert(citations@ =~= before.union(bib_keys(rest)));
            }
            done = true;
        }
    }
    citations
}

} // verus!

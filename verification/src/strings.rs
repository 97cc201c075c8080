//! Strings as sequences of characters: the few operations on text that the
//! rest of the library is built from, each with its meaning as a function on
//! `Seq<char>`.

use vstd::prelude::*;
use vstd::std_specs::iter::IteratorSpec;

verus! {

/// `String::push` of std: the character is appended to the end of the string,
/// and nothing before it changes.
pub assume_specification[ String::push ](s: &mut String, c: char)
    ensures
        final(s)@ == old(s)@.push(c),
;

/// The characters of a string slice, in order.
pub fn to_chars(s: &str) -> (v: Vec<char>)
    ensures
        v@ == s@,
{
    let mut v: Vec<char> = Vec::new();
    let it = s.chars();
    for c in iter: it
        invariant
            v@ == iter.seq().take(iter.index@),
    {
        v.push(c);
    }
    v
}

/// The string that holds the characters `v[lo..hi]`, in order.
pub fn from_chars(v: &Vec<char>, lo: usize, hi: usize) -> (s: String)
    requires
        lo <= hi <= v.len(),
    ensures
        s@ == v@.subrange(lo as int, hi as int),
{
    let mut s = String::new();
    let mut i: usize = lo;
    while i < hi
        invariant
            lo <= i <= hi <= v.len(),
            s@ == v@.subrange(lo as int, i as int),
        decreases hi - i,
    {
        s.push(v[i]);
        i += 1;
    }
    s
}

/// Whether `pat` stands in `s` at offset `at`.
pub open spec fn occurs_at(s: Seq<char>, pat: Seq<char>, at: int) -> bool {
    0 <= at && at + pat.len() <= s.len() && s.subrange(at, at + pat.len()) == pat
}

/// `s` with every match of `from` replaced by `to`. Matches are found from
/// left to right and do not overlap. The empty pattern matches once before
/// every character and once at the end.
pub open spec fn replaced(s: Seq<char>, from: Seq<char>, to: Seq<char>) -> Seq<char>
    decreases s.len(),
{
    if s.len() == 0 {
        if from.len() == 0 {
            to
        } else {
            s
        }
    } else if from.len() == 0 {
        to + seq![s[0]] + replaced(s.skip(1), from, to)
    } else if occurs_at(s, from, 0) {
        to + replaced(s.skip(from.len() as int), from, to)
    } else {
        seq![s[0]] + replaced(s.skip(1), from, to)
    }
}

fn matches_at(text: &Vec<char>, at: usize, pat: &Vec<char>) -> (b: bool)
    requires
        at <= text.len(),
    ensures
        b == occurs_at(text@.skip(at as int), pat@, 0),
{
    if pat.len() > text.len() - at {
        return false;
    }
    let mut j: usize = 0;
    while j < pat.len()
        invariant
            at + pat.len() <= text.len(),
            j <= pat.len(),
            forall|k: int| 0 <= k < j ==> text@[at + k] == pat@[k],
        decreases pat.len() - j,
    {
        if text[at + j] != pat[j] {
            proof {
                let window = text@.skip(at as int).subrange(0, pat@.len() as int);
                assert(window[j as int] == text@[at + j]);
            }
            return false;
        }
        j += 1;
    }
    proof {
        let window = text@.skip(at as int).subrange(0, pat@.len() as int);
        assert(window =~= pat@);
    }
    true
}

/// `s` with every match of `from` replaced by `to`, as `str::replace` gives it.
pub fn replace(s: &str, from: &str, to: &str) -> (r: String)
    ensures
        r@ == replaced(s@, from@, to@),
{
    let text = to_chars(s);
    let pat = to_chars(from);
    let mut out = String::new();
    let mut i: usize = 0;
    proof {
        assert(text@.skip(0) =~= text@);
        assert(out@ + replaced(text@, pat@, to@) =~= replaced(text@, pat@, to@));
    }
    while i < text.len()
        invariant
            i <= text.len(),
            text@ == s@,
            pat@ == from@,
            out@ + replaced(text@.skip(i as int), pat@, to@) == replaced(text@, pat@, to@),
        decreases text.len() - i,
    {
        let ghost rest = text@.skip(i as int);
        let ghost before = out@;
        if pat.len() == 0 {
            out.append(to);
            out.push(text[i]);
            proof {
                assert(rest.skip(1) =~= text@.skip(i + 1));
                assert(out@ + replaced(rest.skip(1), pat@, to@) =~= before + (to@ + seq![rest[0]]
                    + replaced(rest.skip(1), pat@, to@)));
            }
            i += 1;
        } else if matches_at(&text, i, &pat) {
            out.append(to);
            proof {
                assert(rest.skip(pat@.len() as int) =~= text@.skip(i + pat@.len()));
                assert(out@ + replaced(rest.skip(pat@.len() as int), pat@, to@) =~= before + (to@
                    + replaced(rest.skip(pat@.len() as int), pat@, to@)));
            }
            i += pat.len();
        } else {
            out.push(text[i]);
            proof {
                assert(rest.skip(1) =~= text@.skip(i + 1));
                assert(out@ + replaced(rest.skip(1), pat@, to@) =~= before + (seq![rest[0]]
                    + replaced(rest.skip(1), pat@, to@)));
            }
            i += 1;
        }
    }
    if pat.len() == 0 {
        out.append(to);
    }
    proof {
        assert(text@.skip(text@.len() as int) =~= Seq::<char>::empty());
    }
    out
}

/// A pattern stands in the rest of a text where it stands in the text, moved
/// by what was skipped.
pub proof fn occurs_after_skip(s: Seq<char>, pat: Seq<char>, k: int, at: int)
    requires
        0 <= k <= s.len(),
        0 <= at,
    ensures
        occurs_at(s.skip(k), pat, at) == occurs_at(s, pat, at + k),
{
    if at + pat.len() <= s.len() - k {
        assert(s.skip(k).subrange(at, at + pat.len()) =~= s.subrange(at + k, at + k + pat.len()));
    }
}

/// A text in which the pattern stands nowhere is left as it is.
pub proof fn replaced_without_match(s: Seq<char>, from: Seq<char>, to: Seq<char>)
    requires
        from.len() > 0,
        forall|at: int| !occurs_at(s, from, at),
    ensures
        replaced(s, from, to) == s,
    decreases s.len(),
{
    if s.len() > 0 {
        assert(!occurs_at(s, from, 0));
        assert forall|at: int| !occurs_at(s.skip(1), from, at) by {
            if 0 <= at {
                occurs_after_skip(s, from, 1, at);
            }
        }
        replaced_without_match(s.skip(1), from, to);
        assert(seq![s[0]] + s.skip(1) =~= s);
    }
}

/// Where the pattern stands in a text once, after `before` and nowhere else,
/// it is replaced there and the text around it is left as it is.
pub proof fn replaced_single_match(
    before: Seq<char>,
    from: Seq<char>,
    to: Seq<char>,
    after: Seq<char>,
)
    requires
        from.len() > 0,
        forall|at: int| occurs_at(before + from + after, from, at) ==> at == before.len(),
    ensures
        replaced(before + from + after, from, to) == before + to + after,
    decreases before.len(),
{
    let s = before + from + after;
    if before.len() == 0 {
        assert(s.subrange(0, from.len() as int) =~= from);
        assert(occurs_at(s, from, 0));
        assert(s.skip(from.len() as int) =~= after);
        assert forall|at: int| !occurs_at(after, from, at) by {
            if 0 <= at {
                occurs_after_skip(s, from, from.len() as int, at);
            }
        }
        replaced_without_match(after, from, to);
        assert(to + after =~= before + to + after);
    } else {
        assert(!occurs_at(s, from, 0));
        let rest = before.skip(1);
        assert(s.skip(1) =~= rest + from + after);
        assert forall|at: int| occurs_at(rest + from + after, from, at) implies at
            == rest.len() by {
            occurs_after_skip(s, from, 1, at);
        }
        replaced_single_match(rest, from, to, after);
        assert(seq![s[0]] + (rest + to + after) =~= before + to + after);
    }
}


/// The characters that count as white space: those with the Unicode property
/// `White_Space`.
pub open spec fn is_whitespace(c: char) -> bool {
    let n = c as u32;
    ||| 0x09 <= n <= 0x0d
    ||| n == 0x20
    ||| n == 0x85
    ||| n == 0xa0
    ||| n == 0x1680
    ||| 0x2000 <= n <= 0x200a
    ||| n == 0x2028
    ||| n == 0x2029
    ||| n == 0x202f
    ||| n == 0x205f
    ||| n == 0x3000
}

/// `s` without the white space at its start.
pub open spec fn trimmed_start(s: Seq<char>) -> Seq<char>
    decreases s.len(),
{
    if s.len() > 0 && is_whitespace(s[0]) {
        trimmed_start(s.skip(1))
    } else {
        s
    }
}

/// `s` without the white space at its end.
pub open spec fn trimmed_end(s: Seq<char>) -> Seq<char>
    decreases s.len(),
{
    if s.len() > 0 && is_whitespace(s.last()) {
        trimmed_end(s.drop_last())
    } else {
        s
    }
}

/// `s` without the white space at either end.
pub open spec fn trimmed(s: Seq<char>) -> Seq<char> {
    trimmed_end(trimmed_start(s))
}

/// `s` without the run of `c` at its start.
pub open spec fn without_leading(s: Seq<char>, c: char) -> Seq<char>
    decreases s.len(),
{
    if s.len() > 0 && s[0] == c {
        without_leading(s.skip(1), c)
    } else {
        s
    }
}

/// Whether `c` counts as white space.
pub fn whitespace(c: char) -> (b: bool)
    ensures
        b == is_whitespace(c),
{
    let n: u32 = c as u32;
    (0x09 <= n && n <= 0x0d) || n == 0x20 || n == 0x85 || n == 0xa0 || n == 0x1680 || (0x2000 <= n
        && n <= 0x200a) || n == 0x2028 || n == 0x2029 || n == 0x202f || n == 0x205f || n == 0x3000
}

/// The first offset in `v[lo..hi]` that holds no white space, or `hi`.
pub(crate) fn skip_whitespace(v: &Vec<char>, lo: usize, hi: usize) -> (at: usize)
    requires
        lo <= hi <= v.len(),
    ensures
        lo <= at <= hi,
        v@.subrange(at as int, hi as int) == trimmed_start(v@.subrange(lo as int, hi as int)),
{
    let mut i: usize = lo;
    while i < hi && whitespace(v[i])
        invariant
            lo <= i <= hi <= v.len(),
            trimmed_start(v@.subrange(i as int, hi as int)) == trimmed_start(
                v@.subrange(lo as int, hi as int),
            ),
        decreases hi - i,
    {
        proof {
            assert(v@.subrange(i as int, hi as int).skip(1) =~= v@.subrange(i + 1, hi as int));
        }
        i += 1;
    }
    i
}

/// The offset after the last character of `v[lo..hi]` that is no white space,
/// or `lo`.
pub(crate) fn drop_whitespace(v: &Vec<char>, lo: usize, hi: usize) -> (at: usize)
    requires
        lo <= hi <= v.len(),
    ensures
        lo <= at <= hi,
        v@.subrange(lo as int, at as int) == trimmed_end(v@.subrange(lo as int, hi as int)),
{
    let mut i: usize = hi;
    while i > lo && whitespace(v[i - 1])
        invariant
            lo <= i <= hi <= v.len(),
            trimmed_end(v@.subrange(lo as int, i as int)) == trimmed_end(
                v@.subrange(lo as int, hi as int),
            ),
        decreases i - lo,
    {
        proof {
            assert(v@.subrange(lo as int, i as int).drop_last() =~= v@.subrange(
                lo as int,
                i - 1,
            ));
        }
        i -= 1;
    }
    i
}

/// The first offset in `v` that does not hold `c`, or the length of `v`.
pub(crate) fn skip_leading(v: &Vec<char>, c: char) -> (at: usize)
    ensures
        at <= v.len(),
        v@.skip(at as int) == without_leading(v@, c),
{
    let mut i: usize = 0;
    proof {
        assert(v@.skip(0) =~= v@);
    }
    while i < v.len() && v[i] == c
        invariant
            i <= v.len(),
            without_leading(v@.skip(i as int), c) == without_leading(v@, c),
        decreases v.len() - i,
    {
        proof {
            assert(v@.skip(i as int).skip(1) =~= v@.skip(i + 1));
        }
        i += 1;
    }
    i
}

/// `s` without the white space at either end, as `str::trim` gives it.
pub fn trim(s: &str) -> (r: String)
    ensures
        r@ == trimmed(s@),
{
    let v = to_chars(s);
    let lo = skip_whitespace(&v, 0, v.len());
    let hi = drop_whitespace(&v, lo, v.len());
    proof {
        assert(v@.subrange(0, v@.len() as int) =~= v@);
    }
    from_chars(&v, lo, hi)
}

/// `s` without the white space at its end, as `str::trim_end` gives it.
pub fn trim_end(s: &str) -> (r: String)
    ensures
        r@ == trimmed_end(s@),
{
    let v = to_chars(s);
    let hi = drop_whitespace(&v, 0, v.len());
    proof {
        assert(v@.subrange(0, v@.len() as int) =~= v@);
    }
    from_chars(&v, 0, hi)
}

/// The decimal digit of a number below ten.
pub open spec fn digit(d: nat) -> char {
    if d == 0 {
        '0'
    } else if d == 1 {
        '1'
    } else if d == 2 {
        '2'
    } else if d == 3 {
        '3'
    } else if d == 4 {
        '4'
    } else if d == 5 {
        '5'
    } else if d == 6 {
        '6'
    } else if d == 7 {
        '7'
    } else if d == 8 {
        '8'
    } else {
        '9'
    }
}

/// The decimal numeral of `n`, without leading zeros.
pub open spec fn decimal(n: nat) -> Seq<char>
    decreases n,
{
    if n < 10 {
        seq![digit(n)]
    } else {
        decimal(n / 10).push(digit(n % 10))
    }
}

/// The number that a digit stands for.
pub open spec fn digit_value(c: char) -> nat {
    if c == '1' {
        1
    } else if c == '2' {
        2
    } else if c == '3' {
        3
    } else if c == '4' {
        4
    } else if c == '5' {
        5
    } else if c == '6' {
        6
    } else if c == '7' {
        7
    } else if c == '8' {
        8
    } else if c == '9' {
        9
    } else {
        0
    }
}

/// The number that a decimal numeral stands for.
pub open spec fn numeral_value(s: Seq<char>) -> nat
    decreases s.len(),
{
    if s.len() == 0 {
        0
    } else {
        numeral_value(s.drop_last()) * 10 + digit_value(s.last())
    }
}

/// Reading the numeral of a number gives the number back.
pub proof fn decimal_round_trip(n: nat)
    ensures
        numeral_value(decimal(n)) == n,
    decreases n,
{
    if n < 10 {
        assert(decimal(n).drop_last() =~= Seq::<char>::empty());
        assert(numeral_value(decimal(n).drop_last()) == 0);
    } else {
        decimal_round_trip(n / 10);
        assert(decimal(n).drop_last() =~= decimal(n / 10));
    }
}

/// Two numbers with the same numeral are the same number.
pub proof fn decimal_injective(a: nat, b: nat)
    requires
        decimal(a) == decimal(b),
    ensures
        a == b,
{
    decimal_round_trip(a);
    decimal_round_trip(b);
}

fn digit_char(d: usize) -> (c: char)
    requires
        d < 10,
    ensures
        c == digit(d as nat),
{
    if d == 0 {
        '0'
    } else if d == 1 {
        '1'
    } else if d == 2 {
        '2'
    } else if d == 3 {
        '3'
    } else if d == 4 {
        '4'
    } else if d == 5 {
        '5'
    } else if d == 6 {
        '6'
    } else if d == 7 {
        '7'
    } else if d == 8 {
        '8'
    } else {
        '9'
    }
}

/// Appends the decimal numeral of `n` to `out`.
pub(crate) fn push_decimal(out: &mut String, n: usize)
    ensures
        final(out)@ == old(out)@ + decimal(n as nat),
    decreases n,
{
    if n >= 10 {
        push_decimal(out, n / 10);
    }
    out.push(digit_char(n % 10));
    proof {
        assert(final(out)@ =~= old(out)@ + decimal(n as nat));
    }
}

} // verus!

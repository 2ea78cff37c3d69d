//! Text as sequences of characters: lines, substring search, and whitespace trimming, with
//! the meaning std gives `str::lines`, `str::contains`, and `str::trim`.
use vstd::prelude::*;

verus! {

broadcast use vstd::string::axiom_spec_iter;

/// Whether `c` has the Unicode `White_Space` property: the 25 code points U+0009 to U+000D,
/// U+0020, U+0085, U+00A0, U+1680, U+2000 to U+200A, U+2028, U+2029, U+202F, U+205F, and
/// U+3000.
pub open spec fn white_space(c: char) -> bool {
    let u = c as u32;
    ||| 0x09 <= u <= 0x0d
    ||| u == 0x20
    ||| u == 0x85
    ||| u == 0xa0
    ||| u == 0x1680
    ||| 0x2000 <= u <= 0x200a
    ||| u == 0x2028
    ||| u == 0x2029
    ||| u == 0x202f
    ||| u == 0x205f
    ||| u == 0x3000
}

/// Whether the character has the Unicode `White_Space` property, as `char::is_whitespace`
/// decides it.
fn is_white_space(c: char) -> (b: bool)
    ensures
        b == white_space(c),
{
    let u = c as u32;
    (0x09 <= u && u <= 0x0d) || u == 0x20 || u == 0x85 || u == 0xa0 || u == 0x1680 || (0x2000
        <= u && u <= 0x200a) || u == 0x2028 || u == 0x2029 || u == 0x202f || u == 0x205f || u
        == 0x3000
}

/// Whether `t` begins with `prefix`.
pub open spec fn starts_with(t: Seq<char>, prefix: Seq<char>) -> bool {
    prefix.len() <= t.len() && t.subrange(0, prefix.len() as int) == prefix
}

/// `str::strip_prefix`: the rest of `s` after `prefix` when `s` starts with `prefix`, and
/// `None` when it does not.
#[verifier::external_body]
pub fn strip_prefix<'a>(s: &'a str, prefix: &str) -> (r: Option<&'a str>)
    ensures
        match r {
            Some(rest) => s@ == prefix@ + rest@,
            None => !starts_with(s@, prefix@),
        },
{
    s.strip_prefix(prefix)
}

/// The characters of `s`, in order.
pub fn chars_of(s: &str) -> (v: Vec<char>)
    ensures
        v@ == s@,
{
    let mut v: Vec<char> = Vec::new();
    for c in it: s.chars()
        invariant
            v@ == it.seq().take(it.index() as int),
    {
        v.push(c);
    }
    assert(v@ =~= s@);
    v
}

/// `line` without one trailing carriage return, if it has one.
pub open spec fn without_cr(line: Seq<char>) -> Seq<char> {
    if line.len() > 0 && line.last() == '\r' {
        line.drop_last()
    } else {
        line
    }
}

/// The lines of `s` from position `i` on, where the current line began at `start`: lines end
/// at a `'\n'`, which is dropped with a `'\r'` right before it; a final line ending adds no
/// empty line.
pub open spec fn lines_from(s: Seq<char>, start: int, i: int) -> Seq<Seq<char>>
    decreases s.len() - i,
{
    if i >= s.len() {
        if start < s.len() {
            seq![s.subrange(start, s.len() as int)]
        } else {
            seq![]
        }
    } else if s[i] == '\n' {
        seq![without_cr(s.subrange(start, i))] + lines_from(s, i + 1, i + 1)
    } else {
        lines_from(s, start, i + 1)
    }
}

/// The lines of `s`, as `str::lines` yields them: split at `'\n'` or `"\r\n"`, line endings
/// dropped, the final line ending optional.
pub open spec fn text_lines(s: Seq<char>) -> Seq<Seq<char>> {
    lines_from(s, 0, 0)
}

/// The text each span of `s` covers.
pub open spec fn span_texts(s: Seq<char>, spans: Seq<(usize, usize)>) -> Seq<Seq<char>> {
    spans.map_values(|sp: (usize, usize)| s.subrange(sp.0 as int, sp.1 as int))
}

/// Whether every span lies within `s`, start before end.
pub open spec fn spans_within(s: Seq<char>, spans: Seq<(usize, usize)>) -> bool {
    forall|k: int| 0 <= k < spans.len() ==> #[trigger] spans[k].0 <= spans[k].1 <= s.len()
}

/// Whether `needle` occurs in `haystack` at position `at`.
pub open spec fn occurs_at(haystack: Seq<char>, needle: Seq<char>, at: int) -> bool {
    0 <= at && at + needle.len() <= haystack.len() && haystack.subrange(at, at + needle.len())
        == needle
}

/// Whether `needle` occurs anywhere in `haystack` (the empty needle occurs everywhere).
pub open spec fn contains_text(haystack: Seq<char>, needle: Seq<char>) -> bool {
    exists|at: int| occurs_at(haystack, needle, at)
}

/// `t` without its leading `White_Space` characters.
pub open spec fn trim_start(t: Seq<char>) -> Seq<char>
    decreases t.len(),
{
    if t.len() > 0 && white_space(t[0]) {
        trim_start(t.drop_first())
    } else {
        t
    }
}

/// `t` without its trailing `White_Space` characters.
pub open spec fn trim_end(t: Seq<char>) -> Seq<char>
    decreases t.len(),
{
    if t.len() > 0 && white_space(t.last()) {
        trim_end(t.drop_last())
    } else {
        t
    }
}

/// `t` without its leading and trailing `White_Space` characters, as `str::trim` gives it.
pub open spec fn trimmed(t: Seq<char>) -> Seq<char> {
    trim_end(trim_start(t))
}

/// The spans of the lines of `v` (see [`text_lines`]).
pub fn line_spans(v: &Vec<char>) -> (r: Vec<(usize, usize)>)
    ensures
        spans_within(v@, r@),
        span_texts(v@, r@) == text_lines(v@),
{
    let mut spans: Vec<(usize, usize)> = Vec::new();
    let mut start: usize = 0;
    let mut i: usize = 0;
    while i < v.len()
        invariant
            start <= i <= v@.len(),
            spans_within(v@, spans@),
            span_texts(v@, spans@) + lines_from(v@, start as int, i as int) == text_lines(v@),
        decreases v@.len() - i,
    {
        if v[i] == '\n' {
            let end = if i > start && v[i - 1] == '\r' {
                i - 1
            } else {
                i
            };
            let ghost before = spans@;
            assert(v@.subrange(start as int, end as int) == without_cr(
                v@.subrange(start as int, i as int),
            ));
            spans.push((start, end));
            assert forall|k: int| 0 <= k < spans@.len() implies #[trigger] spans@[k].0
                <= spans@[k].1 <= v@.len() by {
                if k < before.len() {
                    assert(spans@[k] == before[k]);
                }
            }
            assert(span_texts(v@, spans@) == span_texts(v@, before).push(
                without_cr(v@.subrange(start as int, i as int)),
            ));
            assert(span_texts(v@, spans@) + lines_from(v@, i + 1, i + 1) =~= span_texts(
                v@,
                before,
            ) + lines_from(v@, start as int, i as int));
            start = i + 1;
        }
        i = i + 1;
    }
    if start < v.len() {
        let ghost before = spans@;
        spans.push((start, v.len()));
        assert(span_texts(v@, spans@) =~= span_texts(v@, before) + lines_from(
            v@,
            start as int,
            i as int,
        ));
    } else {
        assert(span_texts(v@, spans@) =~= span_texts(v@, spans@) + lines_from(
            v@,
            start as int,
            i as int,
        ));
    }
    spans
}

/// Whether `w` holds exactly the characters of `v` from `a` to `b`.
pub fn span_equals(v: &Vec<char>, a: usize, b: usize, w: &Vec<char>) -> (r: bool)
    requires
        a <= b <= v@.len(),
    ensures
        r == (v@.subrange(a as int, b as int) == w@),
{
    if b - a != w.len() {
        return false;
    }
    let mut j: usize = 0;
    while j < w.len()
        invariant
            b - a == w@.len(),
            a <= b <= v@.len(),
            j <= w@.len(),
            forall|k: int| 0 <= k < j ==> v@[a + k] == w@[k],
        decreases w@.len() - j,
    {
        if v[a + j] != w[j] {
            assert(v@.subrange(a as int, b as int)[j as int] != w@[j as int]);
            return false;
        }
        j = j + 1;
    }
    assert(v@.subrange(a as int, b as int) =~= w@);
    true
}

/// Whether `needle` occurs in the characters of `v` from `a` to `b`.
pub fn span_contains(v: &Vec<char>, a: usize, b: usize, needle: &Vec<char>) -> (r: bool)
    requires
        a <= b <= v@.len(),
    ensures
        r == contains_text(v@.subrange(a as int, b as int), needle@),
{
    let ghost h = v@.subrange(a as int, b as int);
    if needle.len() > b - a {
        assert forall|at: int| !occurs_at(h, needle@, at) by {}
        return false;
    }
    if needle.len() == 0 {
        assert(h.subrange(0, 0) =~= needle@);
        assert(occurs_at(h, needle@, 0));
        return true;
    }
    let last = b - needle.len();
    let mut p: usize = a;
    while p <= last
        invariant
            a <= p <= last + 1,
            last + needle@.len() == b,
            needle@.len() > 0,
            a <= b <= v@.len(),
            h == v@.subrange(a as int, b as int),
            forall|at: int| 0 <= at < p - a ==> !occurs_at(h, needle@, at),
        decreases last + 1 - p,
    {
        if span_equals(v, p, p + needle.len(), needle) {
            assert(h.subrange(p - a, p - a + needle@.len()) =~= v@.subrange(
                p as int,
                p + needle@.len(),
            ));
            assert(occurs_at(h, needle@, p - a));
            return true;
        }
        assert(h.subrange(p - a, p - a + needle@.len()) =~= v@.subrange(
            p as int,
            p + needle@.len(),
        ));
        p = p + 1;
    }
    assert forall|at: int| !occurs_at(h, needle@, at) by {}
    false
}

/// The span of the characters of `v` from `a` to `b` without leading and trailing
/// `White_Space`.
pub fn trim_span(v: &Vec<char>, a: usize, b: usize) -> (r: (usize, usize))
    requires
        a <= b <= v@.len(),
    ensures
        a <= r.0 <= r.1 <= b,
        v@.subrange(r.0 as int, r.1 as int) == trimmed(v@.subrange(a as int, b as int)),
{
    let mut s: usize = a;
    while s < b && is_white_space(v[s])
        invariant
            a <= s <= b <= v@.len(),
            trim_start(v@.subrange(s as int, b as int)) == trim_start(
                v@.subrange(a as int, b as int),
            ),
        decreases b - s,
    {
        assert(v@.subrange(s as int, b as int).drop_first() =~= v@.subrange(s + 1, b as int));
        s = s + 1;
    }
    let mut e: usize = b;
    while e > s && is_white_space(v[e - 1])
        invariant
            a <= s <= e <= b <= v@.len(),
            trim_end(v@.subrange(s as int, e as int)) == trimmed(v@.subrange(a as int, b as int)),
        decreases e - s,
    {
        assert(v@.subrange(s as int, e as int).drop_last() =~= v@.subrange(s as int, e - 1));
        e = e - 1;
    }
    (s, e)
}

} // verus!

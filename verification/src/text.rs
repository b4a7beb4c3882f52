//! Character-level text handling: line splitting, trimming and ASCII case folding.

use vstd::prelude::*;
use vstd::slice::slice_subrange;

verus! {

/// Whether `c` has the Unicode `White_Space` property.
pub open spec fn spec_is_white_space(c: char) -> bool {
    ||| '\u{9}' <= c <= '\u{d}'
    ||| c == ' '
    ||| c == '\u{85}'
    ||| c == '\u{a0}'
    ||| c == '\u{1680}'
    ||| '\u{2000}' <= c <= '\u{200a}'
    ||| c == '\u{2028}'
    ||| c == '\u{2029}'
    ||| c == '\u{202f}'
    ||| c == '\u{205f}'
    ||| c == '\u{3000}'
}

/// Whether `c` has the Unicode `White_Space` property.
#[verifier::when_used_as_spec(spec_is_white_space)]
pub fn is_white_space(c: char) -> (r: bool)
    ensures
        r == is_white_space(c),
{
    ('\u{9}' <= c && c <= '\u{d}') || c == ' ' || c == '\u{85}' || c == '\u{a0}' || c == '\u{1680}'
        || ('\u{2000}' <= c && c <= '\u{200a}') || c == '\u{2028}' || c == '\u{2029}' || c
        == '\u{202f}' || c == '\u{205f}' || c == '\u{3000}'
}

/// `s` without its leading white space.
pub open spec fn trimmed_start(s: Seq<char>) -> Seq<char>
    decreases s.len(),
{
    if s.len() > 0 && is_white_space(s.first()) {
        trimmed_start(s.drop_first())
    } else {
        s
    }
}

/// `s` without its trailing white space.
pub open spec fn trimmed_end(s: Seq<char>) -> Seq<char>
    decreases s.len(),
{
    if s.len() > 0 && is_white_space(s.last()) {
        trimmed_end(s.drop_last())
    } else {
        s
    }
}

/// `s` without leading and trailing white space.
pub open spec fn trimmed(s: Seq<char>) -> Seq<char> {
    trimmed_end(trimmed_start(s))
}

/// A text that neither starts nor ends with white space is left alone by trimming.
pub proof fn lemma_untrimmed(s: Seq<char>)
    requires
        s.len() > 0,
        !is_white_space(s.first()),
        !is_white_space(s.last()),
    ensures
        trimmed(s) == s,
{
}

proof fn lemma_trimmed_start_is(s: Seq<char>, a: int)
    requires
        0 <= a <= s.len(),
        forall|i: int| 0 <= i < a ==> is_white_space(#[trigger] s[i]),
        a < s.len() ==> !is_white_space(s[a]),
    ensures
        trimmed_start(s) == s.skip(a),
    decreases a,
{
    if a == 0 {
        assert(s.skip(0) =~= s);
    } else {
        assert(is_white_space(s[0]));
        let rest = s.drop_first();
        assert forall|i: int| 0 <= i < a - 1 implies is_white_space(#[trigger] rest[i]) by {
            assert(is_white_space(s[i + 1]));
        }
        lemma_trimmed_start_is(rest, a - 1);
        assert(rest.skip(a - 1) =~= s.skip(a));
    }
}

proof fn lemma_trimmed_end_is(s: Seq<char>, b: int)
    requires
        0 <= b <= s.len(),
        forall|i: int| b <= i < s.len() ==> is_white_space(#[trigger] s[i]),
        b > 0 ==> !is_white_space(s[b - 1]),
    ensures
        trimmed_end(s) == s.take(b),
    decreases s.len(),
{
    if b == s.len() {
        assert(s.take(b) =~= s);
    } else {
        assert(is_white_space(s[s.len() - 1]));
        let rest = s.drop_last();
        lemma_trimmed_end_is(rest, b);
        assert(rest.take(b) =~= s.take(b));
    }
}

/// Where the white space at the start of `s` ends.
pub proof fn lemma_leading_white_space(s: Seq<char>) -> (a: int)
    ensures
        0 <= a <= s.len(),
        forall|i: int| 0 <= i < a ==> is_white_space(#[trigger] s[i]),
        a < s.len() ==> !is_white_space(s[a]),
    decreases s.len(),
{
    if s.len() > 0 && is_white_space(s[0]) {
        let rest = s.drop_first();
        let a = lemma_leading_white_space(rest) + 1;
        assert forall|i: int| 0 <= i < a implies is_white_space(#[trigger] s[i]) by {
            if i > 0 {
                assert(is_white_space(rest[i - 1]));
            }
        }
        a
    } else {
        0
    }
}

/// Where the white space at the end of `s` starts.
pub proof fn lemma_trailing_white_space(s: Seq<char>) -> (b: int)
    ensures
        0 <= b <= s.len(),
        forall|i: int| b <= i < s.len() ==> is_white_space(#[trigger] s[i]),
        b > 0 ==> !is_white_space(s[b - 1]),
    decreases s.len(),
{
    if s.len() > 0 && is_white_space(s[s.len() - 1]) {
        let rest = s.drop_last();
        let b = lemma_trailing_white_space(rest);
        assert forall|i: int| b <= i < s.len() implies is_white_space(#[trigger] s[i]) by {
            if i < rest.len() {
                assert(is_white_space(rest[i]));
            }
        }
        b
    } else {
        s.len() as int
    }
}

/// A part of `s` that has nothing but white space around it, and none at its own ends, is what
/// trimming leaves.
pub proof fn law_trimming_leaves(s: Seq<char>, a: int, b: int)
    requires
        0 <= a <= b <= s.len(),
        forall|i: int| 0 <= i < a ==> is_white_space(#[trigger] s[i]),
        forall|i: int| b <= i < s.len() ==> is_white_space(#[trigger] s[i]),
        a < b ==> !is_white_space(s[a]) && !is_white_space(s[b - 1]),
    ensures
        trimmed(s) == s.subrange(a, b),
{
    if a < b {
        lemma_trimmed_start_is(s, a);
        let rest = s.skip(a);
        assert(rest[b - a - 1] == s[b - 1]);
        assert forall|i: int| b - a <= i < rest.len() implies is_white_space(#[trigger] rest[i]) by {
            assert(is_white_space(s[i + a]));
        }
        lemma_trimmed_end_is(rest, b - a);
        assert(rest.take(b - a) =~= s.subrange(a, b));
    } else {
        assert forall|i: int| 0 <= i < s.len() implies is_white_space(#[trigger] s[i]) by {
            if i < a {
            } else {
            }
        }
        lemma_trimmed_start_is(s, s.len() as int);
        assert(s.skip(s.len() as int) =~= s.subrange(a, b));
    }
}

/// Trimming takes white space and nothing else, and leaves none at the ends: the text is what
/// trimming leaves, with white space before and after it.
pub proof fn law_trimming_takes_white_space_only(s: Seq<char>)
    ensures
        exists|a: int, b: int|
            0 <= a <= b <= s.len() && #[trigger] s.subrange(a, b) == trimmed(s) && (forall|i: int|
                0 <= i < a ==> is_white_space(#[trigger] s[i])) && (forall|i: int|
                b <= i < s.len() ==> is_white_space(#[trigger] s[i])),
        trimmed(s).len() > 0 ==> !is_white_space(trimmed(s).first()) && !is_white_space(
            trimmed(s).last(),
        ),
{
    let a = lemma_leading_white_space(s);
    let e = lemma_trailing_white_space(s);
    let b = if e < a {
        a
    } else {
        e
    };
    if a < s.len() {
        assert(e > a) by {
            if e <= a {
                assert(is_white_space(s[a]));
            }
        }
    }
    law_trimming_leaves(s, a, b);
    assert(s.subrange(a, b) == trimmed(s));
}

/// Strips leading and trailing white space.
pub fn trim(s: &[char]) -> (r: &[char])
    ensures
        r@ == trimmed(s@),
{
    let mut lo: usize = 0;
    assert(s@.skip(0) =~= s@);
    while lo < s.len() && is_white_space(s[lo])
        invariant
            lo <= s@.len(),
            trimmed_start(s@) == trimmed_start(s@.skip(lo as int)),
        decreases s@.len() - lo,
    {
        assert(s@.skip(lo as int).drop_first() =~= s@.skip(lo + 1));
        lo = lo + 1;
    }
    let body = slice_subrange(s, lo, s.len());
    assert(body@ =~= s@.skip(lo as int));
    assert(body@ == trimmed_start(s@));
    let mut hi: usize = body.len();
    assert(body@.take(hi as int) =~= body@);
    while hi > 0 && is_white_space(body[hi - 1])
        invariant
            hi <= body@.len(),
            trimmed_end(body@) == trimmed_end(body@.take(hi as int)),
        decreases hi,
    {
        assert(body@.take(hi as int).drop_last() =~= body@.take(hi - 1));
        hi = hi - 1;
    }
    slice_subrange(body, 0, hi)
}

/// The characters of `s`, in order.
pub fn chars_of(s: &str) -> (r: Vec<char>)
    ensures
        r@ == s@,
{
    let mut out: Vec<char> = Vec::new();
    for c in it: s.chars()
        invariant
            out@ == it.seq().take(it.index() as int),
            it.seq() == s@,
    {
        out.push(c);
    }
    out
}

/// The ASCII lower-case form of `c`; every other character stands for itself.
pub open spec fn spec_ascii_lower(c: char) -> char {
    if 'A' <= c <= 'Z' {
        (c as u8 + 32) as char
    } else {
        c
    }
}

/// The ASCII lower-case form of `c`; every other character stands for itself.
#[verifier::when_used_as_spec(spec_ascii_lower)]
pub fn ascii_lower(c: char) -> (r: char)
    ensures
        r == ascii_lower(c),
{
    if 'A' <= c && c <= 'Z' {
        (c as u8 + 32) as char
    } else {
        c
    }
}

/// Whether `a` and `b` are the same text up to the case of ASCII letters.
pub open spec fn same_ignoring_ascii_case(a: Seq<char>, b: Seq<char>) -> bool {
    &&& a.len() == b.len()
    &&& forall|i: int| 0 <= i < a.len() ==> ascii_lower(#[trigger] a[i]) == ascii_lower(b[i])
}

/// Two texts are the same up to ASCII case exactly where their lower-case forms are the same.
pub proof fn law_same_in_lower_case(a: Seq<char>, b: Seq<char>)
    ensures
        same_ignoring_ascii_case(a, b) <==> a.map_values(|c: char| ascii_lower(c)) == b.map_values(
            |c: char| ascii_lower(c),
        ),
{
    let f = |c: char| ascii_lower(c);
    if same_ignoring_ascii_case(a, b) {
        assert(a.map_values(f) =~= b.map_values(f));
    }
    if a.map_values(f) == b.map_values(f) {
        assert(a.map_values(f).len() == a.len());
        assert(b.map_values(f).len() == b.len());
        assert forall|i: int| 0 <= i < a.len() implies ascii_lower(#[trigger] a[i]) == ascii_lower(
            b[i],
        ) by {
            assert(a.map_values(f)[i] == b.map_values(f)[i]);
        }
    }
}

/// Compares two texts, taking ASCII letters that differ only in case as equal.
pub fn eq_ignoring_ascii_case(a: &[char], b: &[char]) -> (r: bool)
    ensures
        r == same_ignoring_ascii_case(a@, b@),
{
    if a.len() != b.len() {
        return false;
    }
    let mut i: usize = 0;
    while i < a.len()
        invariant
            i <= a@.len(),
            a@.len() == b@.len(),
            forall|j: int| 0 <= j < i ==> ascii_lower(#[trigger] a@[j]) == ascii_lower(b@[j]),
        decreases a@.len() - i,
    {
        if ascii_lower(a[i]) != ascii_lower(b[i]) {
            assert(ascii_lower(a@[i as int]) != ascii_lower(b@[i as int]));
            return false;
        }
        i = i + 1;
    }
    true
}

/// The position of the first `c` in `s`.
pub fn find(s: &[char], c: char) -> (r: Option<usize>)
    ensures
        match r {
            Some(i) => s@.index_of_first(c) == Some(i as int) && i < s@.len(),
            None => s@.index_of_first(c) is None,
        },
{
    let mut i: usize = 0;
    while i < s.len()
        invariant
            i <= s@.len(),
            forall|j: int| 0 <= j < i ==> s@[j] != c,
        decreases s@.len() - i,
    {
        if s[i] == c {
            assert(s@.contains(s@[i as int]));
            proof {
                s@.index_of_first_ensures(c);
            }
            return Some(i);
        }
        i = i + 1;
    }
    proof {
        s@.index_of_first_ensures(c);
    }
    None
}

/// The pieces of `s` between line feeds. A carriage return before a line feed stays at the end
/// of its piece, where it is white space.
pub open spec fn lines(s: Seq<char>) -> Seq<Seq<char>>
    decreases s.len(),
{
    match s.index_of_first('\n') {
        Some(i) => {
            proof {
                s.index_of_first_ensures('\n');
            }
            seq![s.take(i)] + lines(s.skip(i + 1))
        },
        None => seq![s],
    }
}

/// The pieces, put together with a line feed between any two.
pub open spec fn joined(pieces: Seq<Seq<char>>) -> Seq<char>
    decreases pieces.len(),
{
    if pieces.len() == 0 {
        seq![]
    } else if pieces.len() == 1 {
        pieces[0]
    } else {
        pieces[0] + seq!['\n'] + joined(pieces.drop_first())
    }
}

/// Splitting loses nothing and leaves nothing to split: the lines of a text make it up again when
/// they are joined, and none of them holds a line feed.
pub proof fn law_lines_make_up_the_text(s: Seq<char>)
    ensures
        joined(lines(s)) == s,
        lines(s).len() > 0,
        forall|k: int| 0 <= k < lines(s).len() ==> !(#[trigger] lines(s)[k]).contains('\n'),
    decreases s.len(),
{
    s.index_of_first_ensures('\n');
    if let Some(i) = s.index_of_first('\n') {
        let rest = s.skip(i + 1);
        law_lines_make_up_the_text(rest);
        assert(lines(s).drop_first() =~= lines(rest));
        assert(s =~= s.take(i) + seq!['\n'] + rest);
        assert forall|k: int| 0 <= k < lines(s).len() implies !(
        #[trigger] lines(s)[k]).contains('\n') by {
            if k > 0 {
                assert(lines(s)[k] == lines(rest)[k - 1]);
            }
        }
    }
}

/// A text without a line feed is one line.
pub proof fn law_text_without_line_feed_is_one_line(s: Seq<char>)
    requires
        !s.contains('\n'),
    ensures
        lines(s) == seq![s],
{
    s.index_of_first_ensures('\n');
}

/// A line feed between two texts keeps their lines apart: the lines are those of the one, then
/// those of the other.
pub proof fn law_line_feed_separates(a: Seq<char>, b: Seq<char>)
    ensures
        lines(a + seq!['\n'] + b) == lines(a) + lines(b),
    decreases a.len(),
{
    let s = a + seq!['\n'] + b;
    let n = a.len() as int;
    a.index_of_first_ensures('\n');
    s.index_of_first_ensures('\n');
    assert(s[n] == '\n');
    assert(s.contains('\n'));
    let k = s.index_of_first('\n')->0;
    match a.index_of_first('\n') {
        Some(i) => {
            assert(s[i] == '\n');
            assert(k == i) by {
                if k < i {
                    assert(a[k] == s[k]);
                }
            }
            assert(s.take(i) =~= a.take(i));
            assert(s.skip(i + 1) =~= a.skip(i + 1) + seq!['\n'] + b);
            law_line_feed_separates(a.skip(i + 1), b);
            assert(lines(s) =~= lines(a) + lines(b));
        },
        None => {
            assert(k == n) by {
                if k < n {
                    assert(a[k] == s[k]);
                    assert(a.contains(a[k]));
                }
            }
            assert(s.take(n) =~= a);
            assert(s.skip(n + 1) =~= b);
            assert(lines(s) =~= lines(a) + lines(b));
        },
    }
}

/// The first entry that holds a value.
pub open spec fn first_some<T>(entries: Seq<Option<T>>) -> Option<T>
    decreases entries.len(),
{
    if entries.len() == 0 {
        None
    } else if entries.first() is Some {
        entries.first()
    } else {
        first_some(entries.drop_first())
    }
}

/// `first_some` takes the value of the earliest entry that has one, and finds none only where
/// no entry has one.
pub proof fn lemma_first_some<T>(entries: Seq<Option<T>>)
    ensures
        match first_some(entries) {
            Some(v) => exists|k: int|
                0 <= k < entries.len() && #[trigger] entries[k] == Some(v) && (forall|j: int|
                    0 <= j < k ==> entries[j] is None),
            None => forall|j: int| 0 <= j < entries.len() ==> entries[j] is None,
        },
    decreases entries.len(),
{
    if entries.len() > 0 && entries.first() is None {
        let rest = entries.drop_first();
        lemma_first_some(rest);
        match first_some(entries) {
            Some(v) => {
                let k = choose|k: int|
                    0 <= k < rest.len() && #[trigger] rest[k] == Some(v) && (forall|j: int|
                        0 <= j < k ==> rest[j] is None);
                assert(entries[k + 1] == Some(v));
                assert forall|j: int| 0 <= j < k + 1 implies entries[j] is None by {
                    if j > 0 {
                        assert(rest[j - 1] is None);
                    }
                }
            },
            None => {
                assert forall|j: int| 0 <= j < entries.len() implies entries[j] is None by {
                    if j > 0 {
                        assert(rest[j - 1] is None);
                    }
                }
            },
        }
    } else if entries.len() > 0 {
        assert(entries[0] == first_some(entries));
    }
}

/// The first value of two lists in a row is that of the one, or else that of the other.
pub proof fn law_first_of_two_lists<T>(a: Seq<Option<T>>, b: Seq<Option<T>>)
    ensures
        first_some(a + b) == if first_some(a) is Some {
            first_some(a)
        } else {
            first_some(b)
        },
    decreases a.len(),
{
    if a.len() == 0 {
        assert(a + b =~= b);
    } else {
        assert((a + b).first() == a.first());
        assert((a + b).drop_first() =~= a.drop_first() + b);
        law_first_of_two_lists(a.drop_first(), b);
    }
}

} // verus!

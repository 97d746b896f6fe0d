//! Text as a sequence of characters: trimming, prefixes and equality.
//!
//! Everything here works on `Seq<char>`, the view of `str` and `String`, so
//! that the rules of the matcher can be stated without reference to bytes.

use vstd::prelude::*;

verus! {

/// Whether `c` is whitespace: one of the characters that Unicode gives the
/// property `White_Space`. These are the tab, the line feed, the vertical
/// tab, the form feed, the carriage return, the space, the next line, the
/// no-break space, the Ogham space mark, the spaces from the en quad to the
/// hair space, the line and the paragraph separator, the narrow no-break
/// space, the medium mathematical space and the ideographic space.
pub open spec fn white_space(c: char) -> bool {
    ||| '\u{9}' <= c <= '\u{d}'
    ||| c == ' '
    ||| c == '\u{85}'
    ||| c == '\u{a0}'
    ||| c == '\u{1680}'
    ||| '\u{2000}' <= c <= '\u{200a}'
    ||| c == '\u{2028}'
    ||| c == '\u{2029}'
    ||| c == '\u{202f}'
    ||| c == '\u{205f}'
    ||| c == '\u{3000}'
}

/// Whether `c` is whitespace.
pub fn is_white_space(c: char) -> (b: bool)
    ensures
        b == white_space(c),
{
    ('\u{9}' <= c && c <= '\u{d}') || c == ' ' || c == '\u{85}' || c == '\u{a0}' || c
        == '\u{1680}' || ('\u{2000}' <= c && c <= '\u{200a}') || c == '\u{2028}' || c
        == '\u{2029}' || c == '\u{202f}' || c == '\u{205f}' || c == '\u{3000}'
}

/// `s` without its leading whitespace.
pub open spec fn trim_start(s: Seq<char>) -> Seq<char>
    decreases s.len(),
{
    if s.len() > 0 && white_space(s[0]) {
        trim_start(s.drop_first())
    } else {
        s
    }
}

/// `s` without its trailing whitespace.
pub open spec fn trim_end(s: Seq<char>) -> Seq<char>
    decreases s.len(),
{
    if s.len() > 0 && white_space(s.last()) {
        trim_end(s.drop_last())
    } else {
        s
    }
}

/// `s` without its leading and trailing whitespace.
pub open spec fn trimmed(s: Seq<char>) -> Seq<char> {
    trim_end(trim_start(s))
}

/// Every character of `s` is whitespace.
pub open spec fn all_white_space(s: Seq<char>) -> bool {
    forall|i: int| 0 <= i < s.len() ==> white_space(#[trigger] s[i])
}

/// Where the leading whitespace of `s` ends: what stands before that place
/// is whitespace, what stands at it is not, and `trim_start` keeps the rest.
pub proof fn lemma_trim_start(s: Seq<char>) -> (from: int)
    ensures
        0 <= from <= s.len(),
        trim_start(s) == s.skip(from),
        all_white_space(s.take(from)),
        from < s.len() ==> !white_space(s[from]),
    decreases s.len(),
{
    if s.len() > 0 && white_space(s[0]) {
        let rest = s.drop_first();
        let inner = lemma_trim_start(rest);
        assert forall|i: int| 0 <= i < inner + 1 implies white_space(
            #[trigger] s.take(inner + 1)[i],
        ) by {
            if i > 0 {
                assert(s.take(inner + 1)[i] == rest.take(inner)[i - 1]);
            }
        }
        inner + 1
    } else {
        0
    }
}

/// Where the trailing whitespace of `s` starts: what stands from that place
/// on is whitespace, what stands before it is not, and `trim_end` keeps what
/// comes before.
pub proof fn lemma_trim_end(s: Seq<char>) -> (to: int)
    ensures
        0 <= to <= s.len(),
        trim_end(s) == s.take(to),
        all_white_space(s.skip(to)),
        0 < to ==> !white_space(s[to - 1]),
    decreases s.len(),
{
    if s.len() > 0 && white_space(s.last()) {
        let rest = s.drop_last();
        let to = lemma_trim_end(rest);
        assert forall|i: int| 0 <= i < s.skip(to).len() implies white_space(
            #[trigger] s.skip(to)[i],
        ) by {
            if to + i < rest.len() {
                assert(s.skip(to)[i] == rest.skip(to)[i]);
            }
        }
        to
    } else {
        s.len() as int
    }
}

/// What trimming keeps: one stretch of `s`, before and after which `s` holds
/// whitespace only, and which neither starts nor ends with whitespace.
pub proof fn lemma_trimmed(s: Seq<char>) -> (bounds: (int, int))
    ensures
        0 <= bounds.0 <= bounds.1 <= s.len(),
        trimmed(s) == s.subrange(bounds.0, bounds.1),
        all_white_space(s.take(bounds.0)),
        all_white_space(s.skip(bounds.1)),
        bounds.0 < bounds.1 ==> !white_space(s[bounds.0]) && !white_space(s[bounds.1 - 1]),
{
    let from = lemma_trim_start(s);
    let rest = s.skip(from);
    let kept = lemma_trim_end(rest);
    let to = from + kept;
    assert forall|i: int| 0 <= i < s.skip(to).len() implies white_space(
        #[trigger] s.skip(to)[i],
    ) by {
        assert(s.skip(to)[i] == rest.skip(kept)[i]);
    }
    (from, to)
}

/// A text that neither starts nor ends with whitespace is left as it is.
pub proof fn lemma_trimmed_keeps(s: Seq<char>)
    requires
        s.len() > 0 ==> !white_space(s[0]) && !white_space(s.last()),
    ensures
        trimmed(s) == s,
{
}

/// Trimming twice changes nothing more.
pub proof fn lemma_trimmed_twice(s: Seq<char>)
    ensures
        trimmed(trimmed(s)) == trimmed(s),
{
    lemma_trimmed(s);
    lemma_trimmed_keeps(trimmed(s));
}

/// The characters of `s`, in order.
pub(crate) fn chars_of(s: &str) -> (chars: Vec<char>)
    ensures
        chars@ == s@,
{
    let mut chars: Vec<char> = Vec::new();
    for c in it: s.chars()
        invariant
            it.seq() == s@,
            chars@ == it.seq().subrange(0, it.index()),
    {
        chars.push(c);
    }
    chars
}

/// Trims `chars[lo..hi]`: the bounds of what is left of that range once its
/// leading and trailing whitespace is gone.
pub(crate) fn trim_range(chars: &Vec<char>, lo: usize, hi: usize) -> (bounds: (usize, usize))
    requires
        lo <= hi <= chars.len(),
    ensures
        lo <= bounds.0 <= bounds.1 <= hi,
        chars@.subrange(bounds.0 as int, bounds.1 as int) == trimmed(
            chars@.subrange(lo as int, hi as int),
        ),
{
    let mut i: usize = lo;
    while i < hi && is_white_space(chars[i])
        invariant
            lo <= i <= hi <= chars.len(),
            trim_start(chars@.subrange(lo as int, hi as int)) == trim_start(
                chars@.subrange(i as int, hi as int),
            ),
        decreases hi - i,
    {
        assert(chars@.subrange(i as int, hi as int).drop_first() == chars@.subrange(
            i + 1,
            hi as int,
        ));
        i += 1;
    }
    let mut j: usize = hi;
    while j > i && is_white_space(chars[j - 1])
        invariant
            i <= j <= hi <= chars.len(),
            trim_end(chars@.subrange(i as int, hi as int)) == trim_end(
                chars@.subrange(i as int, j as int),
            ),
        decreases j - i,
    {
        assert(chars@.subrange(i as int, j as int).drop_last() == chars@.subrange(
            i as int,
            j - 1,
        ));
        j -= 1;
    }
    (i, j)
}

/// Whether `chars[lo..hi]` starts with `prefix`; where it does, the length of
/// `prefix` in characters.
pub(crate) fn prefix_len_at(chars: &Vec<char>, lo: usize, hi: usize, prefix: &str) -> (found:
    Option<usize>)
    requires
        lo <= hi <= chars.len(),
    ensures
        found is Some <==> prefix@.is_prefix_of(chars@.subrange(lo as int, hi as int)),
        found matches Some(n) ==> n == prefix@.len(),
{
    let ghost range = chars@.subrange(lo as int, hi as int);
    let mut k: usize = 0;
    let mut agree = true;
    for c in it: prefix.chars()
        invariant
            it.seq() == prefix@,
            range == chars@.subrange(lo as int, hi as int),
            lo <= hi <= chars.len(),
            agree ==> k == it.index() && lo + k <= hi,
            agree ==> it.seq().subrange(0, k as int) == range.subrange(0, k as int),
            !agree ==> !prefix@.is_prefix_of(range),
    {
        if agree {
            if k < hi - lo && chars[lo + k] == c {
                k += 1;
            } else {
                agree = false;
            }
        }
    }
    if agree {
        Some(k)
    } else {
        None
    }
}

/// Whether `chars[lo..hi]` is exactly `text`.
pub(crate) fn equals_at(chars: &Vec<char>, lo: usize, hi: usize, text: &str) -> (same: bool)
    requires
        lo <= hi <= chars.len(),
    ensures
        same == (chars@.subrange(lo as int, hi as int) == text@),
{
    match prefix_len_at(chars, lo, hi, text) {
        Some(n) => {
            assert(n == hi - lo ==> text@ == chars@.subrange(lo as int, hi as int));
            n == hi - lo
        },
        None => false,
    }
}

/// Whether two texts are the same, character by character.
pub(crate) fn same_text(a: &str, b: &str) -> (same: bool)
    ensures
        same == (a@ == b@),
{
    let chars = chars_of(a);
    proof {
        assert(chars@.subrange(0, chars.len() as int) == a@);
    }
    equals_at(&chars, 0, chars.len(), b)
}

} // verus!

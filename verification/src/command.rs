//! The trigger matcher: decides whether a text message is one of the
//! configured commands.
//!
//! A text is trimmed first. Where prefixes are configured, the text has to
//! start with one of them; the longest such prefix is taken off and what is
//! left is trimmed again. The result has to be, character by character, one of
//! the command phrases.

use crate::text::{chars_of, equals_at, prefix_len_at, trim_range, trimmed};
use vstd::prelude::*;

verus! {

/// The length of the longest of `prefixes` that `t` starts with, if `t` starts
/// with any of them.
///
/// This is the prefix that is found first when the prefixes are tried from the
/// longest to the shortest: two prefixes of `t` of one length are equal.
pub open spec fn longest_prefix(t: Seq<char>, prefixes: Seq<Seq<char>>) -> Option<nat>
    decreases prefixes.len(),
{
    if prefixes.len() == 0 {
        None
    } else {
        let before = longest_prefix(t, prefixes.drop_last());
        let p = prefixes.last();
        if p.is_prefix_of(t) && (before matches Some(n) ==> n <= p.len()) {
            Some(p.len())
        } else {
            before
        }
    }
}

/// What is held against the command phrases: the trimmed text where no prefix
/// is configured; otherwise the trimmed text without its longest configured
/// prefix, trimmed again, and nothing where it starts with none of them.
pub open spec fn command_text(text: Seq<char>, prefixes: Seq<Seq<char>>) -> Option<Seq<char>> {
    let t = trimmed(text);
    if prefixes.len() == 0 {
        Some(t)
    } else {
        match longest_prefix(t, prefixes) {
            Some(n) => Some(trimmed(t.skip(n as int))),
            None => None,
        }
    }
}

/// Whether `text` is a command: its command text is one of `commands`.
pub open spec fn is_command(
    text: Seq<char>,
    prefixes: Seq<Seq<char>>,
    commands: Seq<Seq<char>>,
) -> bool {
    command_text(text, prefixes) matches Some(c) && commands.contains(c)
}

/// `longest_prefix` finds a prefix exactly when `t` starts with one of
/// `prefixes`, and then no configured prefix of `t` is longer than the one
/// found.
pub proof fn lemma_longest_prefix(t: Seq<char>, prefixes: Seq<Seq<char>>)
    ensures
        longest_prefix(t, prefixes) is None <==> forall|i: int|
            0 <= i < prefixes.len() ==> !(#[trigger] prefixes[i]).is_prefix_of(t),
        longest_prefix(t, prefixes) matches Some(n) ==> exists|i: int|
            0 <= i < prefixes.len() && (#[trigger] prefixes[i]).is_prefix_of(t)
                && prefixes[i].len() == n,
        longest_prefix(t, prefixes) matches Some(n) ==> forall|i: int|
            0 <= i < prefixes.len() && (#[trigger] prefixes[i]).is_prefix_of(t)
                ==> prefixes[i].len() <= n,
    decreases prefixes.len(),
{
    if prefixes.len() > 0 {
        let shorter = prefixes.drop_last();
        lemma_longest_prefix(t, shorter);
        assert forall|i: int| 0 <= i < shorter.len() implies shorter[i]
            == #[trigger] prefixes[i] by {}
        if let Some(n) = longest_prefix(t, shorter) {
            let i = choose|i: int|
                0 <= i < shorter.len() && (#[trigger] shorter[i]).is_prefix_of(t)
                    && shorter[i].len() == n;
            assert(prefixes[i].is_prefix_of(t));
        }
    }
}

/// The first of `candidates` that `t` starts with, if it starts with any.
pub open spec fn first_match(t: Seq<char>, candidates: Seq<Seq<char>>) -> Option<Seq<char>>
    decreases candidates.len(),
{
    if candidates.len() == 0 {
        None
    } else if candidates[0].is_prefix_of(t) {
        Some(candidates[0])
    } else {
        first_match(t, candidates.drop_first())
    }
}

/// `first_match` finds the first candidate that `t` starts with: none of the
/// candidates before it is one.
pub proof fn lemma_first_match(t: Seq<char>, candidates: Seq<Seq<char>>) -> (at: int)
    ensures
        first_match(t, candidates) is None ==> forall|i: int|
            0 <= i < candidates.len() ==> !(#[trigger] candidates[i]).is_prefix_of(t),
        first_match(t, candidates) is Some ==> 0 <= at < candidates.len(),
        first_match(t, candidates) is Some ==> first_match(t, candidates) == Some(candidates[at]),
        first_match(t, candidates) is Some ==> candidates[at].is_prefix_of(t),
        first_match(t, candidates) is Some ==> forall|i: int|
            0 <= i < at ==> !(#[trigger] candidates[i]).is_prefix_of(t),
    decreases candidates.len(),
{
    if candidates.len() == 0 || candidates[0].is_prefix_of(t) {
        0
    } else {
        let rest = candidates.drop_first();
        let at = lemma_first_match(t, rest);
        assert forall|i: int| 1 <= i < candidates.len() implies #[trigger] candidates[i]
            == rest[i - 1] by {}
        at + 1
    }
}

/// Trying the prefixes from the longest to the shortest and taking the first
/// that fits finds the longest prefix that fits. Where `sorted` holds the
/// same prefixes as `prefixes`, in an order in which no prefix of `t` stands
/// behind a shorter one, the first of `sorted` that `t` starts with has the
/// length that `longest_prefix` gives.
pub proof fn lemma_longest_first(t: Seq<char>, prefixes: Seq<Seq<char>>, sorted: Seq<Seq<char>>)
    requires
        forall|p: Seq<char>| sorted.contains(p) <==> prefixes.contains(p),
        forall|i: int, j: int|
            0 <= i < j < sorted.len() && (#[trigger] sorted[i]).is_prefix_of(t) && (
            #[trigger] sorted[j]).is_prefix_of(t) ==> sorted[i].len() >= sorted[j].len(),
    ensures
        first_match(t, sorted) is None <==> longest_prefix(t, prefixes) is None,
        first_match(t, sorted) matches Some(p) ==> longest_prefix(t, prefixes) == Some(p.len()),
{
    let at = lemma_first_match(t, sorted);
    lemma_longest_prefix(t, prefixes);
    match longest_prefix(t, prefixes) {
        Some(n) => {
            let i = choose|i: int|
                0 <= i < prefixes.len() && (#[trigger] prefixes[i]).is_prefix_of(t)
                    && prefixes[i].len() == n;
            assert(prefixes.contains(prefixes[i]));
            let j = choose|j: int| 0 <= j < sorted.len() && sorted[j] == prefixes[i];
            assert(sorted[j].is_prefix_of(t));
            assert(sorted.contains(sorted[at]));
            let k = choose|k: int| 0 <= k < prefixes.len() && prefixes[k] == sorted[at];
            assert(prefixes[k].is_prefix_of(t));
        },
        None => {
            if first_match(t, sorted) is Some {
                assert(sorted.contains(sorted[at]));
                let k = choose|k: int| 0 <= k < prefixes.len() && prefixes[k] == sorted[at];
                assert(prefixes[k].is_prefix_of(t));
            }
        },
    }
}

/// With no prefix configured, a text is a command exactly when the trimmed
/// text is one of the command phrases.
pub proof fn lemma_without_prefixes(
    text: Seq<char>,
    prefixes: Seq<Seq<char>>,
    commands: Seq<Seq<char>>,
)
    requires
        prefixes.len() == 0,
    ensures
        is_command(text, prefixes, commands) <==> commands.contains(trimmed(text)),
{
}

/// With prefixes configured, a text that, trimmed, starts with none of them
/// is no command, whatever the command phrases are.
pub proof fn lemma_prefix_required(
    text: Seq<char>,
    prefixes: Seq<Seq<char>>,
    commands: Seq<Seq<char>>,
)
    requires
        prefixes.len() > 0,
        forall|i: int|
            0 <= i < prefixes.len() ==> !(#[trigger] prefixes[i]).is_prefix_of(trimmed(text)),
    ensures
        !is_command(text, prefixes, commands),
{
    lemma_longest_prefix(trimmed(text), prefixes);
}

/// With prefixes configured, a command is a text that, trimmed, starts with a
/// configured prefix and, without the longest such prefix and trimmed again,
/// is one of the command phrases.
pub proof fn lemma_longest_prefix_is_stripped(
    text: Seq<char>,
    prefixes: Seq<Seq<char>>,
    commands: Seq<Seq<char>>,
    i: int,
)
    requires
        0 <= i < prefixes.len(),
        prefixes[i].is_prefix_of(trimmed(text)),
        forall|j: int|
            0 <= j < prefixes.len() && (#[trigger] prefixes[j]).is_prefix_of(trimmed(text))
                ==> prefixes[j].len() <= prefixes[i].len(),
    ensures
        is_command(text, prefixes, commands) <==> commands.contains(
            trimmed(trimmed(text).skip(prefixes[i].len() as int)),
        ),
{
    lemma_longest_prefix(trimmed(text), prefixes);
}

/// The longest of `prefixes` that `chars[lo..hi]` starts with.
fn longest_prefix_at(chars: &Vec<char>, lo: usize, hi: usize, prefixes: &[String]) -> (found:
    Option<usize>)
    requires
        lo <= hi <= chars.len(),
    ensures
        found is Some == longest_prefix(
            chars@.subrange(lo as int, hi as int),
            prefixes.deep_view(),
        ) is Some,
        found matches Some(n) ==> lo + n <= hi && longest_prefix(
            chars@.subrange(lo as int, hi as int),
            prefixes.deep_view(),
        ) == Some(n as nat),
{
    let ghost t = chars@.subrange(lo as int, hi as int);
    let ghost all = prefixes.deep_view();
    let mut best: Option<usize> = None;
    let mut i: usize = 0;
    while i < prefixes.len()
        invariant
            i <= prefixes.len(),
            lo <= hi <= chars.len(),
            t == chars@.subrange(lo as int, hi as int),
            all == prefixes.deep_view(),
            best is Some == longest_prefix(t, all.take(i as int)) is Some,
            best matches Some(n) ==> lo + n <= hi && longest_prefix(t, all.take(i as int))
                == Some(n as nat),
        decreases prefixes.len() - i,
    {
        let found = prefix_len_at(chars, lo, hi, prefixes[i].as_str());
        proof {
            assert(all.take(i + 1).drop_last() == all.take(i as int));
        }
        match found {
            Some(n) => {
                let longer = match best {
                    Some(m) => m <= n,
                    None => true,
                };
                if longer {
                    best = Some(n);
                }
            },
            None => {},
        }
        i += 1;
    }
    proof {
        assert(all.take(i as int) == all);
    }
    best
}

/// Whether `chars[lo..hi]` is one of `phrases`.
fn listed(chars: &Vec<char>, lo: usize, hi: usize, phrases: &[String]) -> (found: bool)
    requires
        lo <= hi <= chars.len(),
    ensures
        found == phrases.deep_view().contains(chars@.subrange(lo as int, hi as int)),
{
    let ghost t = chars@.subrange(lo as int, hi as int);
    let ghost all = phrases.deep_view();
    let mut i: usize = 0;
    while i < phrases.len()
        invariant
            i <= phrases.len(),
            lo <= hi <= chars.len(),
            t == chars@.subrange(lo as int, hi as int),
            all == phrases.deep_view(),
            forall|j: int| 0 <= j < i ==> all[j] != t,
        decreases phrases.len() - i,
    {
        if equals_at(chars, lo, hi, phrases[i].as_str()) {
            assert(all[i as int] == t);
            return true;
        }
        i += 1;
    }
    false
}

/// Decides whether `text` is one of the configured commands.
///
/// `prefixes` may be empty: then no prefix is asked for. Otherwise a text
/// that does not start with one of them is no command. Phrases are compared
/// exactly: no case folding, no partial match.
pub fn parse_command(text: &str, prefixes: &[String], commands: &[String]) -> (hit: bool)
    ensures
        hit == is_command(text@, prefixes.deep_view(), commands.deep_view()),
{
    let chars = chars_of(text);
    let (lo, hi) = trim_range(&chars, 0, chars.len());
    proof {
        assert(chars@.subrange(0, chars.len() as int) == text@);
    }
    if prefixes.len() == 0 {
        return listed(&chars, lo, hi, commands);
    }
    match longest_prefix_at(&chars, lo, hi, prefixes) {
        Some(n) => {
            let (from, to) = trim_range(&chars, lo + n, hi);
            proof {
                assert(chars@.subrange(lo as int, hi as int).skip(n as int) == chars@.subrange(
                    lo + n,
                    hi as int,
                ));
            }
            listed(&chars, from, to, commands)
        },
        None => false,
    }
}

} // verus!

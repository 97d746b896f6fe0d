//! The reference resolver: finds the message that an event quotes.
//!
//! A segment of kind `reply` quotes a message. Its data names that message
//! under `id`, as text in decimal notation or as a number. The first segment
//! of a message that names one decides; a segment whose `id` cannot be read
//! is passed over.

use crate::event::InboundEvent;
use crate::json;
use crate::message::{message_parts, part_of, parts_of, reply_part, segments, Part};
use crate::number::{lemma_parse_decimal, parse_i32, parsed_i32};
use crate::text::same_text;
use serde_json::Value;
use vstd::prelude::*;

verus! {

/// The message that `part` quotes, where it is a `reply` segment whose `id`
/// can be read: as text it has to be a 32-bit number in decimal notation; as
/// a number it is cut to its low 32 bits.
pub open spec fn reply_id(part: Part) -> Option<i32> {
    if part.kind == "reply"@ {
        match part.data.member("id"@) {
            Some(id) => match id.text() {
                Some(text) => parsed_i32(text),
                None => match id.integer() {
                    Some(number) => Some(number as i32),
                    None => None,
                },
            },
            None => None,
        }
    } else {
        None
    }
}

/// The message that the first of `parts` quotes that quotes any.
pub open spec fn first_reply_id(parts: Seq<Part>) -> Option<i32>
    decreases parts.len(),
{
    if parts.len() == 0 {
        None
    } else {
        match reply_id(parts[0]) {
            Some(id) => Some(id),
            None => first_reply_id(parts.drop_first()),
        }
    }
}

/// Where none of `parts` quotes a message, none is found.
pub proof fn lemma_nothing_quoted(parts: Seq<Part>)
    requires
        forall|i: int| 0 <= i < parts.len() ==> reply_id(#[trigger] parts[i]) is None,
    ensures
        first_reply_id(parts) is None,
    decreases parts.len(),
{
    if parts.len() > 0 {
        let rest = parts.drop_first();
        assert forall|i: int| 0 <= i < rest.len() implies reply_id(#[trigger] rest[i]) is None by {}
        lemma_nothing_quoted(rest);
    }
}

/// A message without a segment of kind `reply` quotes nothing.
pub proof fn lemma_no_reply_segment(parts: Seq<Part>)
    requires
        forall|i: int| 0 <= i < parts.len() ==> (#[trigger] parts[i]).kind != "reply"@,
    ensures
        first_reply_id(parts) is None,
{
    lemma_nothing_quoted(parts);
}

/// The first segment that quotes a message decides, however many follow it.
pub proof fn lemma_first_reply_wins(parts: Seq<Part>, i: int, id: i32)
    requires
        0 <= i < parts.len(),
        reply_id(parts[i]) == Some(id),
        forall|j: int| 0 <= j < i ==> reply_id(#[trigger] parts[j]) is None,
    ensures
        first_reply_id(parts) == Some(id),
    decreases parts.len(),
{
    if i > 0 {
        let rest = parts.drop_first();
        assert forall|j: int| 0 <= j < i - 1 implies reply_id(#[trigger] rest[j]) is None by {}
        lemma_first_reply_wins(rest, i - 1, id);
    }
}

/// Whatever is found is quoted by one of the segments, and by none before it.
pub proof fn lemma_first_reply_found(parts: Seq<Part>)
    requires
        first_reply_id(parts) is Some,
    ensures
        exists|i: int|
            0 <= i < parts.len() && reply_id(#[trigger] parts[i]) == first_reply_id(parts)
                && forall|j: int| 0 <= j < i ==> reply_id(#[trigger] parts[j]) is None,
    decreases parts.len(),
{
    if reply_id(parts[0]) is None {
        let rest = parts.drop_first();
        lemma_first_reply_found(rest);
        let i = choose|i: int|
            0 <= i < rest.len() && reply_id(#[trigger] rest[i]) == first_reply_id(rest)
                && forall|j: int| 0 <= j < i ==> reply_id(#[trigger] rest[j]) is None;
        assert forall|j: int| 0 <= j < i + 1 implies reply_id(#[trigger] parts[j]) is None by {
            if j > 0 {
                assert(parts[j] == rest[j - 1]);
            }
        }
    }
}

/// The segment that is built to quote a message is read as quoting that
/// message.
pub proof fn lemma_reply_part_is_read(id: i32)
    ensures
        reply_id(reply_part(id)) == Some(id),
{
    lemma_parse_decimal(id);
}

/// The message that a segment with this kind and this data quotes, if it
/// quotes one.
fn segment_reply_id(kind: &str, data: &Value) -> (id: Option<i32>)
    ensures
        id == reply_id(part_of(kind, data)),
{
    if !same_text(kind, "reply") {
        return None;
    }
    match json::get(data, "id") {
        Some(id) => match json::as_str(id) {
            Some(text) => parse_i32(text),
            None => match json::as_i64(id) {
                Some(number) => Some(#[verifier::truncate] (number as i32)),
                None => None,
            },
        },
        None => None,
    }
}

/// Finds the message that `event` quotes: the one that the first segment of
/// kind `reply` names whose `id` can be read. Nothing comes back where there
/// is no such segment.
pub fn get_reply_id(event: &InboundEvent) -> (id: Option<i32>)
    ensures
        id == first_reply_id(message_parts(*event.message)),
{
    let all = segments(event.message);
    let ghost parts = message_parts(*event.message);
    let mut i: usize = 0;
    while i < all.len()
        invariant
            i <= all.len(),
            parts == message_parts(*event.message),
            parts == parts_of(all@),
            forall|j: int| 0 <= j < i ==> reply_id(#[trigger] parts[j]) is None,
        decreases all.len() - i,
    {
        match segment_reply_id(all[i].0, all[i].1) {
            Some(id) => {
                proof {
                    lemma_first_reply_wins(parts, i as int, id);
                }
                return Some(id);
            },
            None => {},
        }
        i += 1;
    }
    proof {
        lemma_nothing_quoted(parts);
    }
    None
}

} // verus!

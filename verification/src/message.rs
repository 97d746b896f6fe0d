//! Chat messages: sequences of segments, each a kind and its data.
//!
//! The messages themselves are `kovi::Message`. What one holds is described
//! by a sequence of `Part`s, and the functions below are the only way in
//! which the rest of the library reads or builds one.

use crate::json::{json_of, Json};
use crate::number::decimal;
use kovi::Message;
use serde_json::Value;
use vstd::prelude::*;

verus! {

/// `kovi::Message`, taken as it is: nothing of its inside is used but through
/// the functions of this module.
#[verifier::external_type_specification]
#[verifier::external_body]
pub struct ExMessage(kovi::bot::message::Message);

/// What a segment holds.
pub struct Part {
    /// The kind of the segment: `text`, `image`, `reply` and so on.
    pub kind: Seq<char>,
    /// The data of the segment, which goes by its kind.
    pub data: Json,
}

/// What a segment with this kind and this data holds.
pub open spec fn part_of(kind: &str, data: &Value) -> Part {
    Part { kind: kind@, data: json_of(*data) }
}

/// What each of `segments` holds, in order.
pub open spec fn parts_of(segments: Seq<(&str, &Value)>) -> Seq<Part> {
    segments.map_values(|segment: (&str, &Value)| part_of(segment.0, segment.1))
}

/// What the segments of `message` hold, in order.
pub uninterp spec fn message_parts(message: Message) -> Seq<Part>;

/// The segment that quotes the message `id`: its data holds the number in
/// decimal notation, as text.
pub open spec fn reply_part(id: i32) -> Part {
    Part { kind: "reply"@, data: Json::Object(map!["id"@ => Json::Text(decimal(id as int))]) }
}

/// The segment that holds the plain text `text`.
pub open spec fn text_part(text: Seq<char>) -> Part {
    Part { kind: "text"@, data: Json::Object(map!["text"@ => Json::Text(text)]) }
}

/// The segment that holds the image to be had from `file`.
pub open spec fn image_part(file: Seq<char>) -> Part {
    Part { kind: "image"@, data: Json::Object(map!["file"@ => Json::Text(file)]) }
}

/// Calls `Message::iter`, and hands out the kind and the data of each
/// segment.
///
/// Trusted: these are the segments of `message`, in order.
#[verifier::external_body]
pub(crate) fn segments<'a>(message: &'a Message) -> (segments: Vec<(&'a str, &'a Value)>)
    ensures
        parts_of(segments@) == message_parts(*message),
{
    message.iter().map(|segment| (segment.type_.as_str(), &segment.data)).collect()
}

/// Calls `Message::new`.
///
/// Trusted: the new message has no segments.
#[verifier::external_body]
pub(crate) fn new_message() -> (message: Message)
    ensures
        message_parts(message) == Seq::<Part>::empty(),
{
    Message::new()
}

/// Calls `Message::add_reply`.
///
/// Trusted: the segment that quotes `id` is put in front of the others.
#[verifier::external_body]
pub(crate) fn add_reply(message: Message, id: i32) -> (longer: Message)
    ensures
        message_parts(longer) == seq![reply_part(id)] + message_parts(message),
{
    message.add_reply(id)
}

/// Calls `Message::add_text`.
///
/// Trusted: a segment with the text is put behind the others.
#[verifier::external_body]
pub(crate) fn add_text(message: Message, text: &str) -> (longer: Message)
    ensures
        message_parts(longer) == message_parts(message).push(text_part(text@)),
{
    message.add_text(text)
}

/// Calls `Message::add_image`.
///
/// Trusted: a segment with the image is put behind the others.
#[verifier::external_body]
pub(crate) fn add_image(message: Message, file: &str) -> (longer: Message)
    ensures
        message_parts(longer) == message_parts(message).push(image_part(file@)),
{
    message.add_image(file)
}

} // verus!

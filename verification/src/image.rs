//! The image extractor: collects the images of a fetched message.
//!
//! A fetched message is a list of JSON objects, one for each segment, with
//! the kind under `type` and the data under `data`. A segment of kind `image`
//! names its image under `url`, as text. Segments of any other kind, and
//! image segments without such a `url`, are passed over.

use crate::json;
use crate::json::{json_of, jsons_of, Json};
use crate::text::same_text;
use serde_json::Value;
use vstd::prelude::*;

verus! {

/// The kind of `segment`: the text under `type`, where there is one.
pub open spec fn segment_kind(segment: Json) -> Option<Seq<char>> {
    match segment.member("type"@) {
        Some(kind) => kind.text(),
        None => None,
    }
}

/// The image that `segment` names, where it is of kind `image` and its data
/// holds a text under `url`.
pub open spec fn image_url(segment: Json) -> Option<Seq<char>> {
    if segment_kind(segment) == Some("image"@) {
        match segment.member("data"@) {
            Some(data) => match data.member("url"@) {
                Some(url) => url.text(),
                None => None,
            },
            None => None,
        }
    } else {
        None
    }
}

/// The images that `segments` name, in the order of the segments, one for
/// each segment that names one.
pub open spec fn image_urls(segments: Seq<Json>) -> Seq<Seq<char>>
    decreases segments.len(),
{
    if segments.len() == 0 {
        Seq::empty()
    } else {
        let before = image_urls(segments.drop_last());
        match image_url(segments.last()) {
            Some(url) => before.push(url),
            None => before,
        }
    }
}

/// The images of a list of segments are those of its front part followed by
/// those of the rest: the order of the segments is kept, and nothing is
/// merged or left out.
pub proof fn lemma_image_urls_in_order(front: Seq<Json>, rest: Seq<Json>)
    ensures
        image_urls(front + rest) == image_urls(front) + image_urls(rest),
    decreases rest.len(),
{
    if rest.len() > 0 {
        assert((front + rest).drop_last() == front + rest.drop_last());
        lemma_image_urls_in_order(front, rest.drop_last());
    }
}

/// Segments of which none names an image give no images.
pub proof fn lemma_nothing_named(segments: Seq<Json>)
    requires
        forall|i: int| 0 <= i < segments.len() ==> image_url(#[trigger] segments[i]) is None,
    ensures
        image_urls(segments) == Seq::<Seq<char>>::empty(),
    decreases segments.len(),
{
    if segments.len() > 0 {
        let before = segments.drop_last();
        assert forall|i: int| 0 <= i < before.len() implies image_url(
            #[trigger] before[i],
        ) is None by {}
        lemma_nothing_named(before);
    }
}

/// Segments of which none is of kind `image` give no images, whatever else
/// they are.
pub proof fn lemma_no_image_segment(segments: Seq<Json>)
    requires
        forall|i: int|
            0 <= i < segments.len() ==> segment_kind(#[trigger] segments[i]) != Some("image"@),
    ensures
        image_urls(segments) == Seq::<Seq<char>>::empty(),
{
    lemma_nothing_named(segments);
}

/// The image that `segment` names, if it names one.
fn segment_image_url(segment: &Value) -> (url: Option<String>)
    ensures
        url is Some <==> image_url(json_of(*segment)) is Some,
        url matches Some(found) ==> image_url(json_of(*segment)) == Some(found@),
{
    let kind = match json::get(segment, "type") {
        Some(kind) => json::as_str(kind),
        None => None,
    };
    let is_image = match kind {
        Some(kind) => same_text(kind, "image"),
        None => false,
    };
    if !is_image {
        return None;
    }
    let url = match json::get(segment, "data") {
        Some(data) => json::get(data, "url"),
        None => None,
    };
    match url {
        Some(url) => match json::as_str(url) {
            Some(text) => Some(text.to_owned()),
            None => None,
        },
        None => None,
    }
}

/// Collects the images that the segments of a fetched message name, in the
/// order of the segments. Nothing is merged: an image named twice comes out
/// twice. Where no segment names an image the result is empty.
pub fn extract_image_urls(message_segments: &Vec<Value>) -> (urls: Vec<String>)
    ensures
        urls.deep_view() == image_urls(jsons_of(message_segments@)),
{
    let ghost all = jsons_of(message_segments@);
    let mut urls: Vec<String> = Vec::new();
    let mut i: usize = 0;
    while i < message_segments.len()
        invariant
            i <= message_segments.len(),
            all == jsons_of(message_segments@),
            urls.deep_view() == image_urls(all.take(i as int)),
        decreases message_segments.len() - i,
    {
        proof {
            assert(all.take(i + 1).drop_last() == all.take(i as int));
        }
        match segment_image_url(&message_segments[i]) {
            Some(url) => {
                urls.push(url);
            },
            None => {},
        }
        i += 1;
    }
    proof {
        assert(all.take(i as int) == all);
    }
    urls
}

} // verus!

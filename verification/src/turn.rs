//! One turn of the assistant: what to do about a message that came in.
//!
//! A turn has at most two steps. `on_message` looks at the message: it is
//! passed over, answered with a notice, or the message that it quotes has to
//! be fetched. In the last case the turn waits, as a `Pending`, and
//! `on_fetched` ends it with what the fetch gave: the answer is a notice or
//! the images of the quoted message. Either way a turn sends one answer at
//! most, and a command message is deleted only after its images were sent.
//!
//! Nothing is sent, fetched or deleted here: the caller does what the
//! `Decision` and the `Outcome` say.

use crate::command::{is_command, parse_command};
use crate::config::Config;
use crate::event::InboundEvent;
use crate::image::{extract_image_urls, image_urls};
use crate::json;
use crate::json::{json_of, Json};
use crate::message::{
    add_image, add_reply, add_text, image_part, message_parts, new_message, reply_part,
    text_part, Part,
};
use crate::reply::{first_reply_id, get_reply_id, lemma_first_reply_wins, lemma_reply_part_is_read};
use kovi::Message;
use serde_json::Value;
use vstd::prelude::*;

verus! {

/// An answer in words, for a turn that could not send images.
#[derive(Debug, Clone, Copy, PartialEq, Eq)]
pub enum Notice {
    /// The command quotes no message.
    MissingReference,
    /// The quoted message could not be fetched.
    FetchFailure,
    /// The quoted message was fetched, but without its segments.
    StaleContent,
    /// The quoted message holds no image.
    NoImageFound,
}

impl Notice {
    /// The words of this notice.
    pub open spec fn words(self) -> Seq<char> {
        match self {
            Notice::MissingReference => "❌ 请【引用】你想要保存的表情包，然后发送此指令。"@,
            Notice::FetchFailure => "❌ 获取引用消息失败，API 请求错误。"@,
            Notice::StaleContent => "❌ 获取原消息失败，消息可能已过期。"@,
            Notice::NoImageFound => "⚠️ 检测不到图片或表情，可能是非常规表情格式（如商城表情）。"@,
        }
    }

    /// The words of this notice, to be sent as they are.
    pub fn text(&self) -> (text: &'static str)
        ensures
            text@ == self.words(),
    {
        match self {
            Notice::MissingReference => "❌ 请【引用】你想要保存的表情包，然后发送此指令。",
            Notice::FetchFailure => "❌ 获取引用消息失败，API 请求错误。",
            Notice::StaleContent => "❌ 获取原消息失败，消息可能已过期。",
            Notice::NoImageFound => "⚠️ 检测不到图片或表情，可能是非常规表情格式（如商城表情）。",
        }
    }
}

/// A turn that waits for the message that its command quotes. It holds what
/// the rest of the turn needs of the event and of the configuration, as they
/// were when the command came in.
#[derive(Debug, Clone, Copy, PartialEq, Eq)]
pub struct Pending {
    /// The message to fetch: the one that the command quotes.
    pub quoted: i32,
    /// The command message, which the answer will quote.
    pub command: i32,
    /// The message to delete once the images were sent, if any is.
    pub delete: Option<i32>,
}

/// What to do about a message that came in.
#[derive(Debug, Clone, Copy, PartialEq, Eq)]
pub enum Decision {
    /// Nothing: the assistant is disabled, or the message is no command.
    Ignore,
    /// Answer with this notice, and nothing else.
    Notify(Notice),
    /// Fetch the message `quoted`, and go on with `on_fetched`.
    Fetch(Pending),
}

/// How a turn ends once the quoted message was asked for.
#[derive(Debug)]
pub enum Outcome {
    /// Answer with this notice, and nothing else.
    Notify(Notice),
    /// Answer with this message; then, where `delete` names a message,
    /// ask for that message to be deleted.
    Deliver { message: Message, delete: Option<i32> },
}

/// What an `Outcome` says.
pub enum Ending {
    /// The notice that is the answer.
    Notify(Notice),
    /// What the segments of the answer hold, and the message that is
    /// deleted after it, if any is.
    Deliver { parts: Seq<Part>, delete: Option<i32> },
}

impl View for Outcome {
    type V = Ending;

    open spec fn view(&self) -> Ending {
        match *self {
            Outcome::Notify(notice) => Ending::Notify(notice),
            Outcome::Deliver { message, delete } => Ending::Deliver {
                parts: message_parts(message),
                delete,
            },
        }
    }
}

/// The words that stand before the images of an answer.
pub open spec fn caption() -> Seq<char> {
    "✅ 图片提取成功：\n"@
}

/// One image segment for each of `urls`, in their order.
pub open spec fn image_parts(urls: Seq<Seq<char>>) -> Seq<Part> {
    urls.map_values(|url: Seq<char>| image_part(url))
}

/// What the answer with images holds: a segment that quotes the command
/// message `to`, the caption, and one image segment for each of `urls`, in
/// their order.
pub open spec fn image_reply_parts(to: i32, urls: Seq<Seq<char>>) -> Seq<Part> {
    seq![reply_part(to), text_part(caption())] + image_parts(urls)
}

/// The message to delete once the images were sent: the command message
/// itself, where the configuration asks for it and the message came from a
/// group.
pub open spec fn message_to_delete(config: Config, event: InboundEvent) -> Option<i32> {
    if config.recall_command && event.group_id is Some {
        Some(event.message_id)
    } else {
        None
    }
}

/// The turn that waits for the message `quoted`, which the command `event`
/// quotes.
pub open spec fn pending(config: Config, event: InboundEvent, quoted: i32) -> Pending {
    Pending { quoted, command: event.message_id, delete: message_to_delete(config, event) }
}

/// What is to be done about `event` under `config`.
///
/// A disabled assistant answers nothing. A message without text, or whose
/// text is no command, is passed over. A command that quotes no message is
/// answered with a notice. Otherwise the quoted message is to be fetched.
pub open spec fn decision(config: Config, event: InboundEvent) -> Decision {
    if !config.enabled {
        Decision::Ignore
    } else {
        match event.text {
            Some(text) if is_command(
                text@,
                config.prefixes.deep_view(),
                config.commands.deep_view(),
            ) => match first_reply_id(message_parts(*event.message)) {
                Some(quoted) => Decision::Fetch(pending(config, event, quoted)),
                None => Decision::Notify(Notice::MissingReference),
            },
            _ => Decision::Ignore,
        }
    }
}

/// What a fetch gave: nothing where it failed, else what its data holds.
pub open spec fn fetched_json(fetched: Option<&Value>) -> Option<Json> {
    match fetched {
        Some(data) => Some(json_of(*data)),
        None => None,
    }
}

/// The segments of a fetched message: the items of the array that the data
/// of the fetch holds under `message`, where it holds one.
pub open spec fn fetched_segments(data: Json) -> Option<Seq<Json>> {
    match data.member("message"@) {
        Some(message) => message.items(),
        None => None,
    }
}

/// How a waiting turn ends, given what the fetch of the quoted message gave:
/// nothing where it failed, else its data.
///
/// A failed fetch, data without the segments of a message, and a message
/// without images each end with their own notice. Otherwise the images are
/// sent, in the order of the segments that name them, and after them the
/// message is deleted that the turn holds for it.
pub open spec fn ending(turn: Pending, fetched: Option<Json>) -> Ending {
    match fetched {
        None => Ending::Notify(Notice::FetchFailure),
        Some(data) => match fetched_segments(data) {
            None => Ending::Notify(Notice::StaleContent),
            Some(segments) => if image_urls(segments).len() == 0 {
                Ending::Notify(Notice::NoImageFound)
            } else {
                Ending::Deliver {
                    parts: image_reply_parts(turn.command, image_urls(segments)),
                    delete: turn.delete,
                }
            },
        },
    }
}

/// A disabled assistant passes every message over, whatever its text.
pub proof fn lemma_disabled_is_silent(config: Config, event: InboundEvent)
    requires
        !config.enabled,
    ensures
        decision(config, event) == Decision::Ignore,
{
}

/// A message is passed over unless its text is a command.
pub proof fn lemma_only_commands_are_answered(config: Config, event: InboundEvent)
    requires
        event.text matches Some(text) ==> !is_command(
            text@,
            config.prefixes.deep_view(),
            config.commands.deep_view(),
        ),
    ensures
        decision(config, event) == Decision::Ignore,
{
}

/// A command that quotes no message is answered with the notice that says
/// so, and nothing is fetched.
pub proof fn lemma_command_without_quote(config: Config, event: InboundEvent)
    requires
        config.enabled,
        event.text matches Some(text) && is_command(
            text@,
            config.prefixes.deep_view(),
            config.commands.deep_view(),
        ),
        first_reply_id(message_parts(*event.message)) is None,
    ensures
        decision(config, event) == Decision::Notify(Notice::MissingReference),
{
}

/// A message is fetched only for a command of an enabled assistant, and it
/// is the message that the command quotes. The turn then holds the command
/// message to quote it in the answer, and to delete it exactly when the
/// configuration asks for it and the command came from a group.
pub proof fn lemma_fetch_follows_quote(config: Config, event: InboundEvent, turn: Pending)
    requires
        decision(config, event) == Decision::Fetch(turn),
    ensures
        config.enabled,
        event.text matches Some(text) && is_command(
            text@,
            config.prefixes.deep_view(),
            config.commands.deep_view(),
        ),
        first_reply_id(message_parts(*event.message)) == Some(turn.quoted),
        turn.command == event.message_id,
        turn.delete is Some <==> config.recall_command && event.group_id is Some,
        turn.delete is Some ==> turn.delete == Some(event.message_id),
{
}

/// Images are sent exactly when the fetch gave a message with an image.
pub proof fn lemma_images_are_sent(turn: Pending, fetched: Option<Json>)
    ensures
        ending(turn, fetched) is Deliver <==> (fetched matches Some(data) && fetched_segments(
            data,
        ) matches Some(segments) && image_urls(segments).len() > 0),
{
}

/// The answer with images quotes the command message, says the caption and
/// then shows images only, at least one.
pub proof fn lemma_answer_with_images(turn: Pending, fetched: Option<Json>)
    requires
        ending(turn, fetched) is Deliver,
    ensures
        ending(turn, fetched)->parts.len() >= 3,
        ending(turn, fetched)->parts[0] == reply_part(turn.command),
        ending(turn, fetched)->parts[1] == text_part(caption()),
        forall|i: int|
            2 <= i < ending(turn, fetched)->parts.len() ==> (
            #[trigger] ending(turn, fetched)->parts[i]).kind == "image"@,
{
}

/// A message is deleted only after images were sent: a turn that ends with a
/// notice deletes nothing, and one that sends images deletes what it holds
/// for that.
pub proof fn lemma_delete_follows_images(turn: Pending, fetched: Option<Json>)
    ensures
        ending(turn, fetched) is Deliver ==> ending(turn, fetched)->delete == turn.delete,
{
}

/// The answer with images quotes the command message, as the resolver reads
/// it.
pub proof fn lemma_answer_quotes_command(to: i32, urls: Seq<Seq<char>>)
    ensures
        first_reply_id(image_reply_parts(to, urls)) == Some(to),
{
    lemma_reply_part_is_read(to);
    lemma_first_reply_wins(image_reply_parts(to, urls), 0, to);
}

/// Builds the answer with images: it quotes the command message `to`, says
/// the caption, and shows each of `urls`, in their order.
pub fn image_reply(to: i32, urls: &Vec<String>) -> (message: Message)
    ensures
        message_parts(message) == image_reply_parts(to, urls.deep_view()),
{
    let mut message = add_text(add_reply(new_message(), to), "✅ 图片提取成功：\n");
    let mut i: usize = 0;
    while i < urls.len()
        invariant
            i <= urls.len(),
            message_parts(message) == image_reply_parts(to, urls.deep_view().take(i as int)),
        decreases urls.len() - i,
    {
        message = add_image(message, urls[i].as_str());
        assert(image_parts(urls.deep_view().take(i + 1)) == image_parts(
            urls.deep_view().take(i as int),
        ).push(image_part(urls[i as int]@)));
        i += 1;
    }
    assert(urls.deep_view().take(i as int) == urls.deep_view());
    message
}

/// Decides what to do about a message that came in.
pub fn on_message(config: &Config, event: &InboundEvent) -> (decided: Decision)
    ensures
        decided == decision(*config, *event),
{
    if !config.enabled {
        return Decision::Ignore;
    }
    let is_command = match event.text {
        Some(text) => parse_command(text, config.prefixes.as_slice(), config.commands.as_slice()),
        None => false,
    };
    if !is_command {
        return Decision::Ignore;
    }
    let quoted = match get_reply_id(event) {
        Some(quoted) => quoted,
        None => return Decision::Notify(Notice::MissingReference),
    };
    let delete = if config.recall_command && event.group_id.is_some() {
        Some(event.message_id)
    } else {
        None
    };
    Decision::Fetch(Pending { quoted, command: event.message_id, delete })
}

/// Decides how a waiting turn ends. `fetched` is the data that the fetch of
/// the quoted message gave, or nothing where the fetch failed.
pub fn on_fetched(turn: Pending, fetched: Option<&Value>) -> (outcome: Outcome)
    ensures
        outcome@ == ending(turn, fetched_json(fetched)),
{
    let data = match fetched {
        Some(data) => data,
        None => return Outcome::Notify(Notice::FetchFailure),
    };
    let segments = match json::get(data, "message") {
        Some(message) => json::as_array(message),
        None => None,
    };
    let segments = match segments {
        Some(segments) => segments,
        None => return Outcome::Notify(Notice::StaleContent),
    };
    let urls = extract_image_urls(segments);
    if urls.len() == 0 {
        return Outcome::Notify(Notice::NoImageFound);
    }
    Outcome::Deliver { message: image_reply(turn.command, &urls), delete: turn.delete }
}

} // verus!

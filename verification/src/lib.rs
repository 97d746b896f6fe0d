//! Recognises a command that quotes a sticker and answers with its images.
//!
//! Somebody quotes a message that holds a sticker and sends a command such
//! as `收`. The answer shows the images of the quoted message as plain
//! images, which a phone can save.
//!
//! - `command` decides whether a text is a command, going by the configured
//!   phrases and prefixes (`parse_command`).
//! - `reply` finds the message that an event quotes (`get_reply_id`).
//! - `image` collects the images of a fetched message
//!   (`extract_image_urls`).
//! - `turn` puts them together: what to do about a message that came in
//!   (`on_message`), and how to end once the quoted message was fetched
//!   (`on_fetched`).
//! - `config` holds the configuration, `event` what is read of an event.
//! - `text` and `number` state what trimming a text and reading a number
//!   mean; `json` and `message` say what a `serde_json::Value` and a
//!   `kovi::Message` hold.
//!
//! The library sends nothing and fetches nothing: its caller does.

pub mod command;
pub mod config;
pub mod event;
pub mod image;
pub mod json;
pub mod message;
pub mod number;
pub mod reply;
pub mod text;
pub mod turn;

pub use command::parse_command;
pub use config::Config;
pub use event::InboundEvent;
pub use image::extract_image_urls;
pub use reply::get_reply_id;
pub use turn::{image_reply, on_fetched, on_message, Decision, Notice, Outcome, Pending};

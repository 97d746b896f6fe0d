use kovi::bot::message::Segment;
use kovi::Message;
use serde_json::{Number, Value};
use sticker_saver::{get_reply_id, InboundEvent};

fn object(members: Vec<(&str, Value)>) -> Value {
    let mut map = serde_json::Map::new();
    for (key, value) in members {
        map.insert(key.to_string(), value);
    }
    Value::Object(map)
}

fn text(s: &str) -> Value {
    Value::String(s.to_string())
}

fn number(n: i64) -> Value {
    Value::Number(Number::from(n))
}

fn reply(id: Value) -> Segment {
    Segment::new("reply", object(vec![("id", id)]))
}

fn words(s: &str) -> Segment {
    Segment::new("text", object(vec![("text", text(s))]))
}

fn quoted(segments: Vec<Segment>) -> Option<i32> {
    let message = Message::from(segments);
    get_reply_id(&InboundEvent { text: Some("收"), message: &message, message_id: 1, group_id: None })
}

#[test]
fn message_without_segments_quotes_nothing() {
    assert_eq!(quoted(vec![]), None);
}

#[test]
fn message_without_reply_segment_quotes_nothing() {
    let segments = vec![
        words("收"),
        Segment::new("image", object(vec![("url", text("http://x/1.png"))])),
        Segment::new("at", object(vec![("qq", text("10001")), ("id", text("5"))])),
    ];
    assert_eq!(quoted(segments), None);
}

#[test]
fn id_as_text_is_read() {
    assert_eq!(quoted(vec![reply(text("123")), words("收")]), Some(123));
    assert_eq!(quoted(vec![reply(text("-5"))]), Some(-5));
    assert_eq!(quoted(vec![reply(text("+5"))]), Some(5));
    assert_eq!(quoted(vec![reply(text("2147483647"))]), Some(i32::MAX));
    assert_eq!(quoted(vec![reply(text("-2147483648"))]), Some(i32::MIN));
}

#[test]
fn id_as_number_is_read() {
    assert_eq!(quoted(vec![reply(number(123))]), Some(123));
    assert_eq!(quoted(vec![reply(number(0))]), Some(0));
    assert_eq!(quoted(vec![reply(number(-77))]), Some(-77));
    assert_eq!(quoted(vec![reply(Value::Number(Number::from(9u64)))]), Some(9));
}

#[test]
fn number_is_cut_to_32_bits() {
    assert_eq!(quoted(vec![reply(number(4294967297))]), Some(1));
    assert_eq!(quoted(vec![reply(number(2147483648))]), Some(i32::MIN));
    assert_eq!(quoted(vec![reply(number(-2147483649))]), Some(i32::MAX));
    assert_eq!(quoted(vec![reply(number(i64::MAX))]), Some(-1));
    assert_eq!(quoted(vec![reply(number(i64::MIN))]), Some(0));
}

#[test]
fn reply_segment_may_stand_anywhere() {
    let segments = vec![words("a"), words("b"), reply(text("42")), words("c")];
    assert_eq!(quoted(segments), Some(42));
}

#[test]
fn first_reply_segment_wins() {
    let segments = vec![reply(text("1")), reply(text("2")), reply(number(3))];
    assert_eq!(quoted(segments), Some(1));
    let segments = vec![words("x"), reply(number(8)), reply(text("9"))];
    assert_eq!(quoted(segments), Some(8));
}

#[test]
fn id_that_cannot_be_read_is_passed_over() {
    let segments = vec![reply(text("abc")), reply(text("7"))];
    assert_eq!(quoted(segments), Some(7));
    let segments = vec![reply(text("")), reply(text(" 3")), reply(text("2147483648")), reply(number(5))];
    assert_eq!(quoted(segments), Some(5));
    let segments = vec![reply(text("abc"))];
    assert_eq!(quoted(segments), None);
}

#[test]
fn id_of_another_shape_is_passed_over() {
    let others = vec![
        Value::Null,
        Value::Bool(true),
        Value::Array(vec![number(1)]),
        object(vec![("id", number(1))]),
        Value::Number(Number::from_f64(1.5).unwrap()),
        Value::Number(Number::from_f64(2.0).unwrap()),
        Value::Number(Number::from(u64::MAX)),
        Value::Number(Number::from(i64::MAX as u64 + 1)),
    ];
    for other in others {
        assert_eq!(quoted(vec![reply(other.clone())]), None);
        assert_eq!(quoted(vec![reply(other), reply(text("6"))]), Some(6));
    }
}

#[test]
fn reply_segment_without_id_is_passed_over() {
    let bare = Segment::new("reply", object(vec![]));
    let misnamed = Segment::new("reply", object(vec![("ID", text("4")), ("message_id", text("4"))]));
    let no_object = Segment::new("reply", text("4"));
    let null = Segment::new("reply", Value::Null);
    let list = Segment::new("reply", Value::Array(vec![text("4")]));
    assert_eq!(quoted(vec![bare.clone()]), None);
    assert_eq!(quoted(vec![misnamed.clone()]), None);
    assert_eq!(quoted(vec![no_object.clone()]), None);
    assert_eq!(quoted(vec![null.clone()]), None);
    assert_eq!(quoted(vec![list.clone()]), None);
    let segments = vec![bare, misnamed, no_object, null, list, reply(text("11"))];
    assert_eq!(quoted(segments), Some(11));
}

#[test]
fn reply_kind_is_compared_exactly() {
    for kind in ["Reply", "REPLY", "reply ", " reply", "repl", "replyy", "", "quote"] {
        let segment = Segment::new(kind, object(vec![("id", text("4"))]));
        assert_eq!(quoted(vec![segment]), None, "{:?}", kind);
    }
}

#[test]
fn id_is_found_among_other_members() {
    let segment = Segment::new(
        "reply",
        object(vec![("text", text("x")), ("id", text("31")), ("qq", number(5))]),
    );
    assert_eq!(quoted(vec![segment]), Some(31));
}

#[test]
fn rest_of_the_event_does_not_matter() {
    let message = Message::from(vec![reply(text("5"))]);
    let event = InboundEvent { text: None, message: &message, message_id: -9, group_id: Some(77) };
    assert_eq!(get_reply_id(&event), Some(5));
}

#[test]
fn quote_that_a_message_was_given_is_found_again() {
    for id in [0, 1, -1, 42, 1000000, i32::MAX, i32::MIN] {
        let message = Message::new().add_text("收").add_reply(id);
        let event = InboundEvent { text: None, message: &message, message_id: 0, group_id: None };
        assert_eq!(get_reply_id(&event), Some(id));
    }
}

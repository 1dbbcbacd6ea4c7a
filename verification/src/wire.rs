//! The wire protocol: JSON frames from sessions and to sessions.
//!
//! Every frame is one flat JSON object whose `type` member says what it is.
//! Sessions send `{"type":"Hello"}` and `{"type":"Snapshot"}`. The server sends
//! `NewDot`, `DotRemoved` and `Snapshot` frames, with the members in the order
//! given below and no white space between them.
//!
//! Reading JSON and writing JSON string literals is left to `serde_json`; the
//! contracts here name what it returns and state everything else in full.

use crate::text::{decimal, push_decimal};
use crate::watcher::{GraphEvent, GraphEventView};
use vstd::prelude::*;
use vstd::string::*;

verus! {

/// A frame of text, handed to a session as it is.
#[derive(Clone, PartialEq, Eq, Debug)]
pub struct TextMessage(pub String);

impl View for TextMessage {
    type V = Seq<char>;

    open spec fn view(&self) -> Seq<char> {
        self.0@
    }
}

/// The texts of a sequence of frames, in order.
pub open spec fn frame_views(frames: Seq<TextMessage>) -> Seq<Seq<char>> {
    frames.map_values(|f: TextMessage| f@)
}

/// The kinds of message a session may send.
#[derive(Clone, Copy, PartialEq, Eq, Structural, Debug)]
pub enum IncomingMessageType {
    /// A greeting; it only shows that the connection works.
    Hello,
    /// A request that every snapshot trigger dump its graphs afresh.
    Snapshot,
}

/// A message from a session.
#[derive(Clone, Copy, PartialEq, Eq, Structural, Debug)]
pub struct IncomingMessage {
    pub type_: IncomingMessageType,
}

/// Why a frame from a session was dropped.
#[derive(Clone, Copy, PartialEq, Eq, Structural, Debug)]
pub enum ProtocolError {
    /// The frame is not JSON, or not an object with a string under `type`.
    Malformed,
    /// The `type` of the frame names no message that a session may send.
    UnknownType,
}

/// A parsed JSON document.
#[verifier::external_type_specification]
#[verifier::external_body]
pub struct ExJsonValue(serde_json::Value);

/// The reason a text is not JSON.
#[verifier::external_type_specification]
#[verifier::external_body]
pub struct ExJsonError(serde_json::Error);

/// The string members of a JSON document, by key: for an object, the members whose
/// value is a string; for any other document, none.
pub uninterp spec fn string_members(document: serde_json::Value) -> Map<Seq<char>, Seq<char>>;

/// The string members of the document that a text denotes, or `None` where the
/// parser does not accept the text: where it is not one JSON value with nothing
/// but white space around it, or is nested deeper than the parser goes.
pub uninterp spec fn parsed_string_members(text: Seq<char>) -> Option<Map<Seq<char>, Seq<char>>>;

/// The JSON string literal for a text: the text between quotation marks, with the
/// characters escaped that JSON does not allow bare.
pub uninterp spec fn json_string(text: Seq<char>) -> Seq<char>;

/// `serde_json::from_str` at the type `serde_json::Value`. It returns a document
/// exactly for the texts that the parser accepts, and which document depends on
/// the text alone. Nothing is proved of it: the contract is taken on trust.
#[verifier::external_body]
fn parse_document(text: &str) -> (r: Result<serde_json::Value, serde_json::Error>)
    ensures
        match r {
            Ok(document) => parsed_string_members(text@) == Some(string_members(document)),
            Err(_) => parsed_string_members(text@) is None,
        },
{
    serde_json::from_str::<serde_json::Value>(text)
}

/// `serde_json::Value::get` with a string key: the value under `key` if the
/// document is an object that holds a string there, and `None` in every other
/// case. Taken on trust.
#[verifier::external_body]
fn string_member(document: &serde_json::Value, key: &str) -> (r: Option<String>)
    ensures
        match r {
            Some(value) => string_members(*document).contains_key(key@) && string_members(
                *document,
            )[key@] == value@,
            None => !string_members(*document).contains_key(key@),
        },
{
    match document.get(key) {
        Some(serde_json::Value::String(value)) => Some(value.clone()),
        _ => None,
    }
}

/// `serde_json::Value`'s `Display`, on a `Value::String`: the JSON string literal
/// for `text`. Taken on trust.
#[verifier::external_body]
fn quote(text: &str) -> (r: String)
    ensures
        r@ == json_string(text@),
{
    serde_json::Value::String(text.to_owned()).to_string()
}

/// The message kind that a `type` tag names.
pub open spec fn type_of_tag(tag: Seq<char>) -> Option<IncomingMessageType> {
    if tag == "Hello"@ {
        Some(IncomingMessageType::Hello)
    } else if tag == "Snapshot"@ {
        Some(IncomingMessageType::Snapshot)
    } else {
        None
    }
}

/// The `type` tag of a frame: the string under `type` of the object that the frame
/// denotes, if it denotes one and there is such a string.
pub open spec fn tag_of(text: Seq<char>) -> Option<Seq<char>> {
    match parsed_string_members(text) {
        Some(members) => if members.contains_key("type"@) {
            Some(members["type"@])
        } else {
            None
        },
        None => None,
    }
}

/// What a frame with the given tag, or with none, decodes to.
pub open spec fn decoded_tag(tag: Option<Seq<char>>) -> Result<IncomingMessage, ProtocolError> {
    match tag {
        None => Err(ProtocolError::Malformed),
        Some(tag) => match type_of_tag(tag) {
            Some(type_) => Ok(IncomingMessage { type_ }),
            None => Err(ProtocolError::UnknownType),
        },
    }
}

/// What a frame from a session decodes to.
pub open spec fn decoded(text: Seq<char>) -> Result<IncomingMessage, ProtocolError> {
    decoded_tag(tag_of(text))
}

impl IncomingMessageType {
    /// Reads a `type` tag.
    pub fn from_tag(tag: &str) -> (r: Option<IncomingMessageType>)
        ensures
            r == type_of_tag(tag@),
    {
        let tag = tag.to_owned();
        if tag == "Hello".to_owned() {
            Some(IncomingMessageType::Hello)
        } else if tag == "Snapshot".to_owned() {
            Some(IncomingMessageType::Snapshot)
        } else {
            None
        }
    }
}

impl IncomingMessage {
    /// Decodes a frame whose `type` tag has been found, or found missing.
    pub fn from_tag(tag: Option<&str>) -> (r: Result<IncomingMessage, ProtocolError>)
        ensures
            r == decoded_tag(
                match tag {
                    Some(t) => Some(t@),
                    None => None,
                },
            ),
    {
        match tag {
            None => Err(ProtocolError::Malformed),
            Some(tag) => match IncomingMessageType::from_tag(tag) {
                Some(type_) => Ok(IncomingMessage { type_ }),
                None => Err(ProtocolError::UnknownType),
            },
        }
    }

    /// Decodes a frame from a session. Members other than `type` are ignored.
    pub fn decode(text: &str) -> (r: Result<IncomingMessage, ProtocolError>)
        ensures
            r == decoded(text@),
    {
        match parse_document(text) {
            Ok(document) => match string_member(&document, "type") {
                Some(tag) => IncomingMessage::from_tag(Some(tag.as_str())),
                None => IncomingMessage::from_tag(None),
            },
            Err(_) => Err(ProtocolError::Malformed),
        }
    }
}

/// A message to a session.
#[derive(Clone, PartialEq, Eq, Debug)]
pub enum OutboundMessage {
    /// A graph file appeared.
    NewDot { name: String, content: String, creation_time: u64 },
    /// A graph file disappeared.
    DotRemoved { name: String, creation_time: u64 },
    /// A request to dump the graphs afresh.
    Snapshot,
}

/// The mathematical content of an [`OutboundMessage`].
pub ghost enum OutboundMessageView {
    NewDot { name: Seq<char>, content: Seq<char>, creation_time: u64 },
    DotRemoved { name: Seq<char>, creation_time: u64 },
    Snapshot,
}

impl View for OutboundMessage {
    type V = OutboundMessageView;

    open spec fn view(&self) -> OutboundMessageView {
        match self {
            OutboundMessage::NewDot { name, content, creation_time } => OutboundMessageView::NewDot {
                name: name@,
                content: content@,
                creation_time: *creation_time,
            },
            OutboundMessage::DotRemoved { name, creation_time } => OutboundMessageView::DotRemoved {
                name: name@,
                creation_time: *creation_time,
            },
            OutboundMessage::Snapshot => OutboundMessageView::Snapshot,
        }
    }
}

/// The message that tells a viewer of a graph event.
pub open spec fn message_of(event: GraphEventView) -> OutboundMessageView {
    match event {
        GraphEventView::Added { name, content, timestamp } => OutboundMessageView::NewDot {
            name,
            content,
            creation_time: timestamp,
        },
        GraphEventView::Removed { name, timestamp } => OutboundMessageView::DotRemoved {
            name,
            creation_time: timestamp,
        },
    }
}

/// The `NewDot` frame around two JSON string literals and a timestamp.
pub open spec fn new_dot_frame_of(
    name_literal: Seq<char>,
    content_literal: Seq<char>,
    creation_time: u64,
) -> Seq<char> {
    "{\"type\":\"NewDot\",\"name\":"@ + name_literal + ",\"content\":"@ + content_literal
        + ",\"creation_time\":"@ + decimal(creation_time as nat) + "}"@
}

/// The `DotRemoved` frame around a JSON string literal and a timestamp.
pub open spec fn dot_removed_frame_of(name_literal: Seq<char>, creation_time: u64) -> Seq<char> {
    "{\"type\":\"DotRemoved\",\"name\":"@ + name_literal + ",\"creation_time\":"@ + decimal(
        creation_time as nat,
    ) + "}"@
}

/// The frame that carries a message: its members in the order `type`, `name`,
/// `content`, `creation_time`, as far as the message has them, with the strings
/// written as JSON string literals and the timestamp as a decimal numeral.
pub open spec fn encoded(message: OutboundMessageView) -> Seq<char> {
    match message {
        OutboundMessageView::NewDot { name, content, creation_time } => new_dot_frame_of(
            json_string(name),
            json_string(content),
            creation_time,
        ),
        OutboundMessageView::DotRemoved { name, creation_time } => dot_removed_frame_of(
            json_string(name),
            creation_time,
        ),
        OutboundMessageView::Snapshot => "{\"type\":\"Snapshot\"}"@,
    }
}

/// Writes the `NewDot` frame around the JSON string literals of a name and a
/// content.
pub fn new_dot_frame(name_literal: &str, content_literal: &str, creation_time: u64) -> (frame:
    String)
    ensures
        frame@ == new_dot_frame_of(name_literal@, content_literal@, creation_time),
{
    let mut out = "{\"type\":\"NewDot\",\"name\":".to_owned();
    out.append(name_literal);
    out.append(",\"content\":");
    out.append(content_literal);
    out.append(",\"creation_time\":");
    push_decimal(&mut out, creation_time);
    out.append("}");
    out
}

/// Writes the `DotRemoved` frame around the JSON string literal of a name.
pub fn dot_removed_frame(name_literal: &str, creation_time: u64) -> (frame: String)
    ensures
        frame@ == dot_removed_frame_of(name_literal@, creation_time),
{
    let mut out = "{\"type\":\"DotRemoved\",\"name\":".to_owned();
    out.append(name_literal);
    out.append(",\"creation_time\":");
    push_decimal(&mut out, creation_time);
    out.append("}");
    out
}

/// The frame that tells a viewer of a graph event.
pub open spec fn frame_of(event: GraphEventView) -> Seq<char> {
    encoded(message_of(event))
}

/// The frames that tell a viewer of a sequence of graph events, in order.
pub open spec fn frames_of(events: Seq<GraphEventView>) -> Seq<Seq<char>> {
    events.map_values(|e: GraphEventView| frame_of(e))
}

impl OutboundMessage {
    /// The message that tells a viewer of `event`.
    pub fn from_event(event: GraphEvent) -> (r: OutboundMessage)
        ensures
            r@ == message_of(event@),
    {
        match event {
            GraphEvent::Added { name, content, timestamp } => OutboundMessage::NewDot {
                name,
                content,
                creation_time: timestamp,
            },
            GraphEvent::Removed { name, timestamp } => OutboundMessage::DotRemoved {
                name,
                creation_time: timestamp,
            },
        }
    }

    /// Writes the message as a frame.
    pub fn encode(&self) -> (frame: TextMessage)
        ensures
            frame@ == encoded(self@),
    {
        match self {
            OutboundMessage::NewDot { name, content, creation_time } => TextMessage(
                new_dot_frame(
                    quote(name.as_str()).as_str(),
                    quote(content.as_str()).as_str(),
                    *creation_time,
                ),
            ),
            OutboundMessage::DotRemoved { name, creation_time } => TextMessage(
                dot_removed_frame(quote(name.as_str()).as_str(), *creation_time),
            ),
            OutboundMessage::Snapshot => TextMessage("{\"type\":\"Snapshot\"}".to_owned()),
        }
    }
}

/// Writes the frames that tell a viewer of `events`, in order.
pub fn encode_events(events: Vec<GraphEvent>) -> (frames: Vec<TextMessage>)
    ensures
        frame_views(frames@) == frames_of(crate::watcher::event_views(events@)),
{
    let ghost input = crate::watcher::event_views(events@);
    let mut frames: Vec<TextMessage> = Vec::new();
    for event in it: events
        invariant
            input == crate::watcher::event_views(events@),
            frame_views(frames@) == frames_of(input.take(it.index() as int)),
    {
        let ghost before = frame_views(frames@);
        let frame = OutboundMessage::from_event(event).encode();
        frames.push(frame);
        assert(frame_views(frames@) =~= before.push(frame@));
        assert(input.take(it.index() + 1) =~= input.take(it.index() as int).push(event@));
    }
    assert(input.take(input.len() as int) =~= input);
    frames
}

} // verus!

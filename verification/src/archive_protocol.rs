//! The archive control protocol carried as JSON on the WebRTC data channel:
//! the requests the client sends, the replies of the server and their kinds.

use vstd::prelude::*;
use crate::text::{str_contains, str_eq, has_substring};

verus! {

/// One span of recorded video (milliseconds since 1970-01-01).
#[derive(Debug, Clone, Copy, PartialEq, Eq, Structural)]
pub struct TimeRange {
    pub start_time: u64,
    pub end_time: u64,
    pub duration: u64,
}

/// A JSON value as `serde_json` holds it; its contents stay opaque here.
#[verifier::external_type_specification]
#[verifier::external_body]
pub struct ExJsonValue(serde_json::Value);

/// The data of a request that takes no parameters: the JSON object with no
/// fields, `{}`.
#[derive(Debug, Clone, Copy, PartialEq, Eq, Structural)]
pub struct EmptyData {}

/// `get_ranges`: the spans of recorded video, optionally within a period.
#[derive(Debug)]
pub struct GetRangesRequest {
    pub typ: &'static str,
    pub data: GetRangesData,
}

#[derive(Debug)]
pub struct GetRangesData {
    pub start_time: Option<u64>,
    pub end_time: Option<u64>,
}

/// `get_archive_fragment`: load a fragment of the archive into the server's buffer.
#[derive(Debug)]
pub struct GetArchiveFragmentRequest {
    pub typ: &'static str,
    pub data: GetArchiveFragmentData,
}

#[derive(Debug)]
pub struct GetArchiveFragmentData {
    pub start_time: u64,
    pub duration: i64,
    pub key: Option<bool>,
    pub type_meta: Option<String>,
}

/// `drop_buffer`: stop and empty the server's buffer of frames.
#[derive(Debug)]
pub struct DropBufferRequest {
    pub typ: &'static str,
    pub data: EmptyData,
}

/// `play_stream`: start sending the buffered frames.
#[derive(Debug)]
pub struct PlayStreamRequest {
    pub typ: &'static str,
    pub data: EmptyData,
}

/// `stop_stream`: stop sending frames, keeping the buffer.
#[derive(Debug)]
pub struct StopStreamRequest {
    pub typ: &'static str,
    pub data: EmptyData,
}

/// A message of the server: a reply with a type and data, or an error.
#[derive(Debug)]
pub struct ServerMessage {
    pub typ: Option<String>,
    pub data: Option<serde_json::Value>,
    pub error: Option<String>,
}

/// The data of a `ranges` reply.
#[derive(Debug)]
pub struct RangesResponseData {
    pub ranges: Vec<TimeRange>,
}

/// The data of an `archive_fragment` reply: the span the server has loaded.
#[derive(Debug, Clone, Copy, PartialEq, Eq, Structural)]
pub struct ArchiveFragmentResponseData {
    pub start_time: u64,
    pub end_time: u64,
    pub duration: u64,
}

/// Builds `get_ranges` for the given period; an absent bound is left out.
pub fn get_ranges(start_time: Option<u64>, end_time: Option<u64>) -> (r: GetRangesRequest)
    ensures
        r.typ@ == "get_ranges"@,
        r.data.start_time == start_time,
        r.data.end_time == end_time,
{
    GetRangesRequest { typ: "get_ranges", data: GetRangesData { start_time, end_time } }
}

/// Builds `get_archive_fragment` for `duration_ms` from `start_time`, asking
/// for a key frame first when `with_key_frame` holds; no metadata filter.
pub fn get_archive_fragment(start_time: u64, duration_ms: i64, with_key_frame: bool) -> (r:
    GetArchiveFragmentRequest)
    ensures
        r.typ@ == "get_archive_fragment"@,
        r.data.start_time == start_time,
        r.data.duration == duration_ms,
        r.data.key == Some(with_key_frame),
        r.data.type_meta.is_none(),
{
    GetArchiveFragmentRequest {
        typ: "get_archive_fragment",
        data: GetArchiveFragmentData {
            start_time,
            duration: duration_ms,
            key: Some(with_key_frame),
            type_meta: None,
        },
    }
}

/// Builds `drop_buffer` with the empty object as data.
pub fn drop_buffer() -> (r: DropBufferRequest)
    ensures
        r.typ@ == "drop_buffer"@,
        r.data == (EmptyData {}),
{
    DropBufferRequest { typ: "drop_buffer", data: EmptyData {} }
}

/// Builds `play_stream` with the empty object as data.
pub fn play_stream() -> (r: PlayStreamRequest)
    ensures
        r.typ@ == "play_stream"@,
        r.data == (EmptyData {}),
{
    PlayStreamRequest { typ: "play_stream", data: EmptyData {} }
}

/// Builds `stop_stream` with the empty object as data.
pub fn stop_stream() -> (r: StopStreamRequest)
    ensures
        r.typ@ == "stop_stream"@,
        r.data == (EmptyData {}),
{
    StopStreamRequest { typ: "stop_stream", data: EmptyData {} }
}

/// The analytics metadata that the server sends with every frame; such text
/// is recognised by its type field and not parsed.
pub open spec fn is_meta_text(text: Seq<char>) -> bool {
    has_substring(text, "\"type\":\"meta\""@)
}

/// Whether a data-channel text is a per-frame metadata message.
pub fn is_meta_message(text: &str) -> (r: bool)
    ensures
        r == is_meta_text(text@),
{
    str_contains(text, "\"type\":\"meta\"")
}

/// What a parsed server message asks of the archive loop.
#[derive(Debug, Clone, Copy, PartialEq, Eq, Structural)]
pub enum ServerMessageKind {
    /// The message carries an error; nothing else of it is read.
    ServerError,
    /// The type or the data is missing.
    MissingTypeOrData,
    /// A `ranges` reply.
    Ranges,
    /// An `archive_fragment` reply.
    ArchiveFragment,
    /// A reply of another type.
    Unhandled,
}

/// The kind of a server message: an error first, then a message without type
/// or data, then by its type.
pub open spec fn server_message_kind(msg: ServerMessage) -> ServerMessageKind {
    if msg.error.is_some() {
        ServerMessageKind::ServerError
    } else if msg.typ.is_none() || msg.data.is_none() {
        ServerMessageKind::MissingTypeOrData
    } else if msg.typ.unwrap()@ == "ranges"@ {
        ServerMessageKind::Ranges
    } else if msg.typ.unwrap()@ == "archive_fragment"@ {
        ServerMessageKind::ArchiveFragment
    } else {
        ServerMessageKind::Unhandled
    }
}

/// Sorts a server message by what the archive loop does with it.
pub fn classify_server_message(msg: &ServerMessage) -> (k: ServerMessageKind)
    ensures
        k == server_message_kind(*msg),
{
    if msg.error.is_some() {
        return ServerMessageKind::ServerError;
    }
    match (&msg.typ, &msg.data) {
        (Some(typ), Some(_)) => {
            if str_eq(typ.as_str(), "ranges") {
                ServerMessageKind::Ranges
            } else if str_eq(typ.as_str(), "archive_fragment") {
                ServerMessageKind::ArchiveFragment
            } else {
                ServerMessageKind::Unhandled
            }
        },
        _ => ServerMessageKind::MissingTypeOrData,
    }
}

} // verus!

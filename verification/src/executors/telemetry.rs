//! The telemetry wire format and what the listener does with what it reads.
//!
//! A message is one JSON object: `stream_id` (string) and `timestamp`
//! (number) must be there; `value`, `rel_lat`, `rel_lon`, `altitude`,
//! `pitch`, `roll` and `yaw` are numbers that may be left out and then are
//! zero. Other members are ignored.

use vstd::prelude::*;
use crate::executors::streaming::{StreamData, StreamDataView};
use crate::json::{
    json_of, optional_number, parse_value, parsed_json, read_number, read_optional_number,
    read_text, required_number, required_text, Json,
};

verus! {

/// The message that a JSON document holds; `None` where it is not one.
pub open spec fn stream_data_of(document: Json) -> Option<StreamDataView> {
    if required_text(document, "stream_id"@).is_some()
        && required_number(document, "timestamp"@).is_some()
        && optional_number(document, "value"@).is_some()
        && optional_number(document, "rel_lat"@).is_some()
        && optional_number(document, "rel_lon"@).is_some()
        && optional_number(document, "altitude"@).is_some()
        && optional_number(document, "pitch"@).is_some()
        && optional_number(document, "roll"@).is_some()
        && optional_number(document, "yaw"@).is_some() {
        Some(
            StreamDataView {
                stream_id: required_text(document, "stream_id"@).unwrap(),
                timestamp: required_number(document, "timestamp"@).unwrap(),
                value: optional_number(document, "value"@).unwrap(),
                rel_lat: optional_number(document, "rel_lat"@).unwrap(),
                rel_lon: optional_number(document, "rel_lon"@).unwrap(),
                altitude: optional_number(document, "altitude"@).unwrap(),
                pitch: optional_number(document, "pitch"@).unwrap(),
                roll: optional_number(document, "roll"@).unwrap(),
                yaw: optional_number(document, "yaw"@).unwrap(),
            },
        )
    } else {
        None
    }
}

/// The message that a text holds: the text must parse as JSON and the
/// document must be a message.
pub open spec fn stream_data_in(text: Seq<char>) -> Option<StreamDataView> {
    match parsed_json(text) {
        Some(document) => stream_data_of(document),
        None => None,
    }
}

/// Decodes a parsed JSON document as a telemetry message.
pub fn decode_stream_data(value: &serde_json::Value) -> (r: Option<StreamData>)
    ensures
        match r {
            Some(data) => stream_data_of(json_of(*value)) == Some(data@),
            None => stream_data_of(json_of(*value)).is_none(),
        },
{
    let stream_id = match read_text(value, "stream_id") {
        Some(text) => text,
        None => { return None; },
    };
    let timestamp = match read_number(value, "timestamp") {
        Some(bits) => bits,
        None => { return None; },
    };
    let value_bits = match read_optional_number(value, "value") {
        Some(bits) => bits,
        None => { return None; },
    };
    let rel_lat = match read_optional_number(value, "rel_lat") {
        Some(bits) => bits,
        None => { return None; },
    };
    let rel_lon = match read_optional_number(value, "rel_lon") {
        Some(bits) => bits,
        None => { return None; },
    };
    let altitude = match read_optional_number(value, "altitude") {
        Some(bits) => bits,
        None => { return None; },
    };
    let pitch = match read_optional_number(value, "pitch") {
        Some(bits) => bits,
        None => { return None; },
    };
    let roll = match read_optional_number(value, "roll") {
        Some(bits) => bits,
        None => { return None; },
    };
    let yaw = match read_optional_number(value, "yaw") {
        Some(bits) => bits,
        None => { return None; },
    };
    Some(
        StreamData {
            stream_id,
            timestamp,
            value: value_bits,
            rel_lat,
            rel_lon,
            altitude,
            pitch,
            roll,
            yaw,
        },
    )
}

/// Parses one telemetry message from its text. A text that is no JSON, or no
/// message, gives `None`: the caller drops it and goes on.
pub fn parse_stream_data(text: &str) -> (r: Option<StreamData>)
    ensures
        match r {
            Some(data) => stream_data_in(text@) == Some(data@),
            None => stream_data_in(text@).is_none(),
        },
{
    match parse_value(text) {
        Some(value) => decode_stream_data(&value),
        None => None,
    }
}

/// How long the listener sleeps while no session is on, in milliseconds.
pub const LISTENER_IDLE_MILLIS: u64 = 100;

/// How long the listener sleeps between two receive attempts, in milliseconds.
pub const LISTENER_PAUSE_MILLIS: u64 = 10;

/// The receive timeout that the listener sets on its socket, in milliseconds.
pub const LISTENER_RECEIVE_TIMEOUT_MILLIS: i32 = 100;

/// What the listener does at the top of its loop.
#[derive(Clone, Copy, Debug, PartialEq, Eq, Structural)]
pub enum ListenerAction {
    /// No session is on: sleep this many milliseconds and look again.
    Idle { millis: u64 },
    /// A session is on: try to receive without blocking.
    Receive,
}

/// Decides what the listener does next, given the session flag.
pub fn listener_action(running: bool) -> (action: ListenerAction)
    ensures
        action == if running {
            ListenerAction::Receive
        } else {
            ListenerAction::Idle { millis: LISTENER_IDLE_MILLIS }
        },
{
    if running {
        ListenerAction::Receive
    } else {
        ListenerAction::Idle { millis: LISTENER_IDLE_MILLIS }
    }
}

/// What one receive attempt on the socket gave.
#[derive(Clone, Debug, PartialEq, Eq)]
pub enum SocketRead {
    /// A message arrived and is text.
    Text(String),
    /// A message arrived and is not valid UTF-8.
    InvalidText,
    /// Nothing is there to receive.
    WouldBlock,
    /// Any other socket error.
    Failed,
}

/// What the listener does with what it read.
#[derive(Clone, Debug, PartialEq, Eq)]
pub struct ListenerStep {
    /// The message to push onto the hand-off channel, if the read gave one.
    pub forward: Option<StreamData>,
    /// Whether the read is worth a line in the log: a malformed message or
    /// a socket error, not an empty socket.
    pub report: bool,
    /// How long to sleep before the next attempt, in milliseconds.
    pub pause_millis: u64,
}

/// The message that a read gives: the one that its text holds.
pub open spec fn forwarded(read: SocketRead) -> Option<StreamDataView> {
    match read {
        SocketRead::Text(text) => stream_data_in(text@),
        _ => None,
    }
}

/// Whether a read is reported: everything that gave no message, but an
/// empty socket.
pub open spec fn reported(read: SocketRead) -> bool {
    match read {
        SocketRead::Text(text) => stream_data_in(text@).is_none(),
        SocketRead::InvalidText => true,
        SocketRead::WouldBlock => false,
        SocketRead::Failed => true,
    }
}

/// Decides what the listener does with one read. A message that does not
/// parse is dropped and not tried again; no read ends the listener.
pub fn listener_step(read: SocketRead) -> (step: ListenerStep)
    ensures
        match step.forward {
            Some(data) => forwarded(read) == Some(data@),
            None => forwarded(read).is_none(),
        },
        step.report == reported(read),
        step.pause_millis == LISTENER_PAUSE_MILLIS,
{
    match read {
        SocketRead::Text(text) => {
            let forward = parse_stream_data(text.as_str());
            let report = forward.is_none();
            ListenerStep { forward, report, pause_millis: LISTENER_PAUSE_MILLIS }
        },
        SocketRead::InvalidText => ListenerStep {
            forward: None,
            report: true,
            pause_millis: LISTENER_PAUSE_MILLIS,
        },
        SocketRead::WouldBlock => ListenerStep {
            forward: None,
            report: false,
            pause_millis: LISTENER_PAUSE_MILLIS,
        },
        SocketRead::Failed => ListenerStep {
            forward: None,
            report: true,
            pause_millis: LISTENER_PAUSE_MILLIS,
        },
    }
}

} // verus!

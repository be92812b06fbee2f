//! The feed connectors' decision logic: the reconnect state machine of a
//! TCP feed, the event handling of an MQTT subscription, and the per-line
//! ingestion path that both feeds share.
//!
//! The caller owns the sockets, the sleeps and the event loop; it hands
//! each observed event to these functions and performs the action they
//! return. The ingestion path takes the raw line and the shared store and
//! does everything that needs no I/O: decode, update, count rejects.

use vstd::prelude::*;

use crate::decode::{decode_message_sbs, spec_decode};
use crate::store::{spec_update, SharedDataDb};

verus! {

/// Seconds a feed waits before a reconnect attempt.
pub const RECONNECT_DELAY_SECS: u64 = 5;

/// One line-oriented TCP feed to read from.
pub struct SbsServer {
    pub label: String,
    pub sbs_hostname: String,
    pub sbs_port: u16,
}

/// One MQTT subscription to read from.
pub struct MqttBroker {
    pub label: String,
    pub mqtt_broker_hostname: String,
    pub mqtt_broker_port: u16,
    pub mqtt_topic: String,
    pub mqtt_user: String,
    pub mqtt_password: String,
    pub mqtt_keepalive: u64,
}

/// Where a TCP feed stands in its life cycle.
#[derive(Clone, Copy, PartialEq, Eq, Debug)]
pub enum FeedState {
    Disconnected,
    Connecting,
    Streaming,
}

/// What the runtime observed on a TCP feed.
#[derive(Clone, Copy, PartialEq, Eq, Debug)]
pub enum FeedEvent {
    Start,
    ConnectSucceeded,
    ConnectFailed,
    LineReceived,
    ReadFailed,
    StreamEnded,
}

/// What the runtime must do next on a TCP feed. `WaitThenRetry` means:
/// sleep for `RECONNECT_DELAY_SECS`, then hand in `Start` again.
#[derive(Clone, Copy, PartialEq, Eq, Debug)]
pub enum FeedAction {
    AttemptConnect,
    WaitThenRetry,
    HandleLine,
    Ignore,
}

/// The reconnect state machine of a TCP feed: connect attempts repeat
/// for ever with a fixed delay, every received line is handled in place,
/// and a read failure or a clean stream end drops the feed back to
/// `Disconnected` for the same delayed retry. No event ends the machine.
pub open spec fn spec_feed_step(s: FeedState, e: FeedEvent) -> (FeedState, FeedAction) {
    match (s, e) {
        (FeedState::Disconnected, FeedEvent::Start) => (
            FeedState::Connecting,
            FeedAction::AttemptConnect,
        ),
        (FeedState::Connecting, FeedEvent::ConnectSucceeded) => (
            FeedState::Streaming,
            FeedAction::Ignore,
        ),
        (FeedState::Connecting, FeedEvent::ConnectFailed) => (
            FeedState::Disconnected,
            FeedAction::WaitThenRetry,
        ),
        (FeedState::Streaming, FeedEvent::LineReceived) => (
            FeedState::Streaming,
            FeedAction::HandleLine,
        ),
        (FeedState::Streaming, FeedEvent::ReadFailed) => (
            FeedState::Disconnected,
            FeedAction::WaitThenRetry,
        ),
        (FeedState::Streaming, FeedEvent::StreamEnded) => (
            FeedState::Disconnected,
            FeedAction::WaitThenRetry,
        ),
        _ => (s, FeedAction::Ignore),
    }
}

pub fn feed_step(s: FeedState, e: FeedEvent) -> (r: (FeedState, FeedAction))
    ensures
        r == spec_feed_step(s, e),
{
    match (s, e) {
        (FeedState::Disconnected, FeedEvent::Start) => (
            FeedState::Connecting,
            FeedAction::AttemptConnect,
        ),
        (FeedState::Connecting, FeedEvent::ConnectSucceeded) => (
            FeedState::Streaming,
            FeedAction::Ignore,
        ),
        (FeedState::Connecting, FeedEvent::ConnectFailed) => (
            FeedState::Disconnected,
            FeedAction::WaitThenRetry,
        ),
        (FeedState::Streaming, FeedEvent::LineReceived) => (
            FeedState::Streaming,
            FeedAction::HandleLine,
        ),
        (FeedState::Streaming, FeedEvent::ReadFailed) => (
            FeedState::Disconnected,
            FeedAction::WaitThenRetry,
        ),
        (FeedState::Streaming, FeedEvent::StreamEnded) => (
            FeedState::Disconnected,
            FeedAction::WaitThenRetry,
        ),
        _ => (s, FeedAction::Ignore),
    }
}

/// What the runtime observed on an MQTT subscription.
#[derive(Clone, Copy, PartialEq, Eq, Debug)]
pub enum MqttEvent {
    IncomingPublish,
    OtherIncoming,
    Outgoing,
    ConnectionError,
}

/// What the runtime must do with an MQTT event: hand the publish payload
/// to the ingestion path, note the event for diagnostics only, or end
/// this connector's loop and surface the failure.
#[derive(Clone, Copy, PartialEq, Eq, Debug)]
pub enum MqttAction {
    DeliverPayload,
    Observe,
    Terminate,
}

/// The MQTT event handling: only publish events reach the store; other
/// traffic is diagnostics; a transport error ends the loop.
pub open spec fn spec_mqtt_step(e: MqttEvent) -> MqttAction {
    match e {
        MqttEvent::IncomingPublish => MqttAction::DeliverPayload,
        MqttEvent::OtherIncoming => MqttAction::Observe,
        MqttEvent::Outgoing => MqttAction::Observe,
        MqttEvent::ConnectionError => MqttAction::Terminate,
    }
}

pub fn mqtt_step(e: MqttEvent) -> (r: MqttAction)
    ensures
        r == spec_mqtt_step(e),
{
    match e {
        MqttEvent::IncomingPublish => MqttAction::DeliverPayload,
        MqttEvent::OtherIncoming => MqttAction::Observe,
        MqttEvent::Outgoing => MqttAction::Observe,
        MqttEvent::ConnectionError => MqttAction::Terminate,
    }
}

/// Relies on core::str::from_utf8: it succeeds exactly on valid UTF-8,
/// and the resulting text is those bytes read as UTF-8.
#[verifier::external_body]
pub fn payload_to_text(payload: &Vec<u8>) -> (r: Option<String>)
    ensures
        r is Some <==> vstd::utf8::valid_utf8(payload@),
        r matches Some(s) ==> s@ == vstd::utf8::decode_utf8(payload@),
{
    match core::str::from_utf8(payload.as_slice()) {
        Ok(s) => Some(s.to_owned()),
        Err(_) => None,
    }
}

/// The shared per-line path of both connectors, after the audit write:
/// decode the line and apply it to the store, or count it as rejected
/// and leave every track untouched.
pub fn ingest_line(db: &mut SharedDataDb, line: &str) -> (accepted: bool)
    requires
        old(db).wf(),
    ensures
        final(db).wf(),
        accepted == (spec_decode(line@) is Some),
        spec_decode(line@) matches Some(mv) ==> final(db)@ == spec_update(old(db)@, mv)
            && final(db).rejected() == old(db).rejected(),
        spec_decode(line@) is None ==> final(db)@ == old(db)@ && final(db).rejected() == (
        if old(db).rejected() == u64::MAX {
            u64::MAX
        } else {
            (old(db).rejected() + 1) as u64
        }),
{
    match decode_message_sbs(line) {
        Some(msg) => {
            db.apply_message(&msg);
            true
        },
        None => {
            db.note_rejected();
            false
        },
    }
}

} // verus!

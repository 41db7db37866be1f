//! The decisions of the ingestion loop: what to do with each delivered
//! message, and how the subscription reacts to the transport.
use vstd::prelude::*;
use crate::device_id::DeviceId;
use crate::message::{
    reading_of_payload, validation_error, ParseError, ReadingModel, TelemetryMessage,
    ValidationError,
};

verus! {

/// Seconds to wait after a transport failure before connecting again.
pub const RECONNECT_DELAY_SECONDS: u64 = 5;

/// Why a payload was turned away before any storage work.
#[derive(Clone, Copy, Debug, PartialEq, Eq)]
pub enum Rejection {
    Parse(ParseError),
    Invalid(ValidationError),
}

/// Parse, then validate: the reading a payload gives at time `now`, or why
/// it was turned away.
pub open spec fn accepted_reading(b: Seq<u8>, now: i64) -> Result<ReadingModel, Rejection> {
    match reading_of_payload(b, now) {
        Err(e) => Err(Rejection::Parse(e)),
        Ok(m) => match validation_error(m) {
            Some(v) => Err(Rejection::Invalid(v)),
            None => Ok(m),
        },
    }
}

/// `r` is the exec counterpart of the spec outcome `s`.
pub open spec fn accept_matches(r: Result<TelemetryMessage, Rejection>, s: Result<ReadingModel, Rejection>) -> bool {
    match r {
        Ok(m) => s == Ok::<ReadingModel, Rejection>(m@),
        Err(e) => s == Err::<ReadingModel, Rejection>(e),
    }
}

/// Reads a payload at time `now` and checks the ranges of its measurements.
pub fn parse_and_validate(payload: &[u8], now: i64) -> (r: Result<TelemetryMessage, Rejection>)
    ensures
        accept_matches(r, accepted_reading(payload@, now)),
{
    match TelemetryMessage::from_payload(payload, now) {
        Err(e) => Err(Rejection::Parse(e)),
        Ok(m) => match m.validate() {
            Err(v) => Err(Rejection::Invalid(v)),
            Ok(()) => Ok(m),
        },
    }
}

/// Parse-then-validate is a function of the payload and the time alone: two
/// runs on the same input accept the same reading, field for field, or
/// reject it for the same reason.
pub proof fn lemma_parse_and_validate_deterministic(
    b: Seq<u8>,
    now: i64,
    r1: Result<TelemetryMessage, Rejection>,
    r2: Result<TelemetryMessage, Rejection>,
)
    requires
        accept_matches(r1, accepted_reading(b, now)),
        accept_matches(r2, accepted_reading(b, now)),
    ensures
        r1 is Ok <==> r2 is Ok,
        r1 is Ok ==> r1->Ok_0@ == r2->Ok_0@,
        r1 is Err ==> r1 == r2,
{
}

/// What the store reports for an insert keyed by device, timestamp and sequence.
#[derive(Clone, Copy, Debug, PartialEq, Eq, Structural)]
pub enum InsertOutcome {
    Inserted,
    AlreadyPresent,
}

/// Classifies the row count of a conditional insert that skips existing keys.
pub fn insert_outcome(rows_affected: u64) -> (r: InsertOutcome)
    ensures
        r == (if rows_affected == 0 { InsertOutcome::AlreadyPresent } else { InsertOutcome::Inserted }),
{
    if rows_affected == 0 {
        InsertOutcome::AlreadyPresent
    } else {
        InsertOutcome::Inserted
    }
}

/// The storage operation that failed.
#[derive(Clone, Copy, Debug, PartialEq, Eq, Structural)]
pub enum StorageStep {
    Lookup,
    Insert,
    TouchLastSeen,
}

/// How the handling of one message ended.
#[derive(Clone, Copy, Debug, PartialEq, Eq)]
pub enum Outcome {
    Stored,
    AlreadyStored,
    Rejected(Rejection),
    UnknownDevice(DeviceId),
    StorageFailed(StorageStep),
}

/// Where the handling of one message stands.
#[derive(Clone, Copy, Debug, PartialEq)]
pub enum FlowState {
    Start,
    Looking(TelemetryMessage),
    Inserting(TelemetryMessage),
    Touching(TelemetryMessage, InsertOutcome),
    Done,
}

/// What the outside world reports back to the message flow.
#[derive(Clone, Debug, PartialEq)]
pub enum FlowEvent {
    /// A message arrived; `now` is the current time in epoch seconds.
    Delivered { payload: Vec<u8>, now: i64 },
    DeviceFound(bool),
    InsertDone(InsertOutcome),
    TouchDone,
    StorageFailed,
}

/// What the message flow asks of the outside world next.
#[derive(Clone, Copy, Debug, PartialEq)]
pub enum FlowAction {
    CheckDevice(DeviceId),
    Insert(TelemetryMessage),
    TouchLastSeen(DeviceId, i64),
    Finish(Outcome),
    /// The event does not fit the state; nothing is done.
    Ignore,
}

/// One step of the handling of a message: the next state and the action
/// that the caller carries out before reporting the next event.
pub fn flow_step(state: FlowState, event: &FlowEvent) -> (r: (FlowState, FlowAction))
    ensures
        match (state, *event) {
            (FlowState::Start, FlowEvent::Delivered { payload, now }) =>
                match accepted_reading(payload@, now) {
                    Err(e) => r == (FlowState::Done, FlowAction::Finish(Outcome::Rejected(e))),
                    Ok(m) => match r {
                        (FlowState::Looking(x), FlowAction::CheckDevice(d)) =>
                            x@ == m && d == x.greenhouse_id,
                        _ => false,
                    },
                },
            (FlowState::Looking(m), FlowEvent::DeviceFound(true)) =>
                r == (FlowState::Inserting(m), FlowAction::Insert(m)),
            (FlowState::Looking(m), FlowEvent::DeviceFound(false)) =>
                r == (FlowState::Done, FlowAction::Finish(Outcome::UnknownDevice(m.greenhouse_id))),
            (FlowState::Looking(_), FlowEvent::StorageFailed) =>
                r == (FlowState::Done, FlowAction::Finish(Outcome::StorageFailed(StorageStep::Lookup))),
            (FlowState::Inserting(m), FlowEvent::InsertDone(o)) =>
                r == (FlowState::Touching(m, o), FlowAction::TouchLastSeen(m.greenhouse_id, m.timestamp)),
            (FlowState::Inserting(_), FlowEvent::StorageFailed) =>
                r == (FlowState::Done, FlowAction::Finish(Outcome::StorageFailed(StorageStep::Insert))),
            (FlowState::Touching(_, o), FlowEvent::TouchDone) =>
                r == (FlowState::Done, FlowAction::Finish(
                    if o == InsertOutcome::Inserted { Outcome::Stored } else { Outcome::AlreadyStored })),
            (FlowState::Touching(_, _), FlowEvent::StorageFailed) =>
                r == (FlowState::Done, FlowAction::Finish(Outcome::StorageFailed(StorageStep::TouchLastSeen))),
            _ => r == (state, FlowAction::Ignore),
        },
{
    match (state, event) {
        (FlowState::Start, FlowEvent::Delivered { payload, now }) => {
            match parse_and_validate(payload.as_slice(), *now) {
                Err(e) => (FlowState::Done, FlowAction::Finish(Outcome::Rejected(e))),
                Ok(m) => (FlowState::Looking(m), FlowAction::CheckDevice(m.greenhouse_id)),
            }
        },
        (FlowState::Looking(m), FlowEvent::DeviceFound(found)) => {
            if *found {
                (FlowState::Inserting(m), FlowAction::Insert(m))
            } else {
                (FlowState::Done, FlowAction::Finish(Outcome::UnknownDevice(m.greenhouse_id)))
            }
        },
        (FlowState::Looking(_), FlowEvent::StorageFailed) =>
            (FlowState::Done, FlowAction::Finish(Outcome::StorageFailed(StorageStep::Lookup))),
        (FlowState::Inserting(m), FlowEvent::InsertDone(o)) =>
            (FlowState::Touching(m, *o), FlowAction::TouchLastSeen(m.greenhouse_id, m.timestamp)),
        (FlowState::Inserting(_), FlowEvent::StorageFailed) =>
            (FlowState::Done, FlowAction::Finish(Outcome::StorageFailed(StorageStep::Insert))),
        (FlowState::Touching(_, o), FlowEvent::TouchDone) => {
            let outcome = match o {
                InsertOutcome::Inserted => Outcome::Stored,
                InsertOutcome::AlreadyPresent => Outcome::AlreadyStored,
            };
            (FlowState::Done, FlowAction::Finish(outcome))
        },
        (FlowState::Touching(_, _), FlowEvent::StorageFailed) =>
            (FlowState::Done, FlowAction::Finish(Outcome::StorageFailed(StorageStep::TouchLastSeen))),
        _ => (state, FlowAction::Ignore),
    }
}

/// The connection state of the subscription.
#[derive(Clone, Copy, Debug, PartialEq, Eq, Structural)]
pub enum LinkState {
    Disconnected,
    Connecting,
    Subscribed,
}

/// What the transport reported.
#[derive(Clone, Copy, Debug, PartialEq, Eq, Structural)]
pub enum LinkEvent {
    /// The loop is about to poll the transport again.
    Polling,
    /// The broker acknowledged the connection.
    Connected,
    /// A message arrived on a subscribed topic.
    Message,
    /// Any other packet.
    Other,
    /// The connection failed or dropped.
    Failed,
}

/// What the loop does next.
#[derive(Clone, Copy, Debug, PartialEq, Eq, Structural)]
pub enum LinkAction {
    Nothing,
    /// Issue the topic subscription (sessions are not kept across connections).
    Subscribe,
    /// Run the message flow on the delivered message.
    Handle,
    /// Sleep for this many seconds, then poll again.
    Wait(u64),
}

/// One step of the subscription's state machine. It has no terminal state:
/// every failure leads back to connecting after `RECONNECT_DELAY_SECONDS`.
pub fn link_step(state: LinkState, event: LinkEvent) -> (r: (LinkState, LinkAction))
    ensures
        event == LinkEvent::Failed ==> r == (LinkState::Disconnected, LinkAction::Wait(RECONNECT_DELAY_SECONDS)),
        event == LinkEvent::Connected ==> r == (LinkState::Subscribed, LinkAction::Subscribe),
        event == LinkEvent::Polling ==> r == (
            if state == LinkState::Disconnected { LinkState::Connecting } else { state }, LinkAction::Nothing),
        event == LinkEvent::Message ==> r == (state,
            if state == LinkState::Subscribed { LinkAction::Handle } else { LinkAction::Nothing }),
        event == LinkEvent::Other ==> r == (state, LinkAction::Nothing),
{
    match event {
        LinkEvent::Failed => (LinkState::Disconnected, LinkAction::Wait(RECONNECT_DELAY_SECONDS)),
        LinkEvent::Connected => (LinkState::Subscribed, LinkAction::Subscribe),
        LinkEvent::Polling => match state {
            LinkState::Disconnected => (LinkState::Connecting, LinkAction::Nothing),
            _ => (state, LinkAction::Nothing),
        },
        LinkEvent::Message => match state {
            LinkState::Subscribed => (state, LinkAction::Handle),
            _ => (state, LinkAction::Nothing),
        },
        LinkEvent::Other => (state, LinkAction::Nothing),
    }
}

} // verus!

//! The per-connection protocol state machine.
//!
//! A connection moves `Accepted -> ReadinessCheck -> Serving <-> Replying ->
//! Closed`. The surrounding process owns the socket and the timers; it feeds
//! each outcome of its waits into [`step`] as a [`ConnEvent`] and performs
//! the returned [`ConnAction`]. All protocol decisions — what closes the
//! connection, with which class of error, and which bytes answer which line
//! — are made here and verified:
//!
//! * a readiness timeout closes the stream with a broken-pipe-class error
//!   before anything was read;
//! * an idle timeout or the peer's end-of-stream closes it quietly;
//! * a line, well-formed or not, never closes it: the reply is
//!   [`respond`]'s bytes, written and flushed before the next read;
//! * a write failure closes it with an I/O error.

use vstd::prelude::*;
use crate::query::{decode_query, sp_decode_query, Query, QueryV};
use crate::reply::{
    encode_reply, lemma_reply_line_form, negative_line, sp_affirmative_line, sp_encode_reply,
    sp_negative_line, InitializeReply, Reply, ReplyV,
};
use crate::json::sp_parse;

verus! {

/// How a connection ended.
#[derive(Debug, PartialEq, Eq, Clone, Copy, Structural)]
pub enum CloseKind {
    /// A quiet end: the peer went away or stayed silent past the idle window.
    Normal,
    /// The stream never became ready within the readiness window.
    BrokenPipe,
    /// Reading or writing the stream failed.
    IoFailure,
}

/// Where a connection stands.
#[derive(Debug, PartialEq, Eq, Clone, Copy, Structural)]
pub enum ConnState {
    /// Handed over by the listener; no I/O yet.
    Accepted,
    /// Waiting for the stream to become readable and writable.
    ReadinessCheck,
    /// Waiting for the next request line.
    Serving,
    /// A reply is on its way out.
    Replying,
    /// Terminal; the stream is released.
    Closed(CloseKind),
}

/// What the process observed while performing the last action.
#[derive(Debug, PartialEq, Eq)]
pub enum ConnEvent {
    /// The handler starts on a fresh connection.
    Start,
    /// The stream became readable and writable in time.
    Ready,
    /// The readiness window passed first.
    ReadyTimeout,
    /// One full line arrived (without its newline).
    Line(Vec<u8>),
    /// The idle window passed with no line.
    IdleTimeout,
    /// The peer closed the stream.
    Eof,
    /// The read itself failed.
    ReadFailed,
    /// The reply was written and flushed.
    Wrote,
    /// Writing the reply failed.
    WriteFailed,
}

/// The mathematical shape of [`ConnEvent`].
pub enum ConnEventV {
    Start,
    Ready,
    ReadyTimeout,
    Line(Seq<u8>),
    IdleTimeout,
    Eof,
    ReadFailed,
    Wrote,
    WriteFailed,
}

impl View for ConnEvent {
    type V = ConnEventV;

    open spec fn view(&self) -> ConnEventV {
        match self {
            ConnEvent::Start => ConnEventV::Start,
            ConnEvent::Ready => ConnEventV::Ready,
            ConnEvent::ReadyTimeout => ConnEventV::ReadyTimeout,
            ConnEvent::Line(l) => ConnEventV::Line(l@),
            ConnEvent::IdleTimeout => ConnEventV::IdleTimeout,
            ConnEvent::Eof => ConnEventV::Eof,
            ConnEvent::ReadFailed => ConnEventV::ReadFailed,
            ConnEvent::Wrote => ConnEventV::Wrote,
            ConnEvent::WriteFailed => ConnEventV::WriteFailed,
        }
    }
}

/// What the process must do next.
#[derive(Debug, PartialEq, Eq)]
pub enum ConnAction {
    /// Wait, bounded by the readiness timeout, for the stream to become
    /// readable and writable.
    WaitReady,
    /// Wait, bounded by the idle timeout, for the next line.
    ReadLine,
    /// Write these bytes and flush them before reading on.
    Write(Vec<u8>),
    /// Release the stream; no further I/O.
    Stop,
}

/// The mathematical shape of [`ConnAction`].
pub enum ConnActionV {
    WaitReady,
    ReadLine,
    Write(Seq<u8>),
    Stop,
}

impl View for ConnAction {
    type V = ConnActionV;

    open spec fn view(&self) -> ConnActionV {
        match self {
            ConnAction::WaitReady => ConnActionV::WaitReady,
            ConnAction::ReadLine => ConnActionV::ReadLine,
            ConnAction::Write(v) => ConnActionV::Write(v@),
            ConnAction::Stop => ConnActionV::Stop,
        }
    }
}

/// The one reply line for one request line: `{"result":true}` for a
/// well-formed `initialize`, and the generic negative line `{"result":false}`
/// for every other well-formed request (all stubs) and for every line that
/// does not decode. A malformed line is answered, never echoed.
pub open spec fn sp_respond(line: Seq<u8>) -> Seq<u8> {
    match sp_decode_query(line) {
        Ok(q) => match q {
            QueryV::Initialize(_) => sp_affirmative_line(),
            _ => sp_negative_line(),
        },
        Err(_) => sp_negative_line(),
    }
}

/// Decodes one request line, dispatches, and encodes the reply line;
/// returns exactly [`sp_respond`] of the line.
pub fn respond(line: &[u8]) -> (out: Vec<u8>)
    ensures
        out@ == sp_respond(line@),
{
    match decode_query(line) {
        Ok(q) => match q {
            Query::Initialize(_) => {
                let out = encode_reply(&Reply::Initialize(InitializeReply { result: true }));
                proof {
                    assert(sp_encode_reply(ReplyV::Initialize(true)) =~= sp_affirmative_line());
                }
                out
            },
            _ => negative_line(),
        },
        Err(_) => negative_line(),
    }
}

/// One transition of the connection state machine: from the state and the
/// observed event to the next state and the action to perform.
pub open spec fn sp_step(st: ConnState, ev: ConnEventV) -> (ConnState, ConnActionV) {
    match (st, ev) {
        (ConnState::Accepted, ConnEventV::Start) => (ConnState::ReadinessCheck, ConnActionV::WaitReady),
        (ConnState::ReadinessCheck, ConnEventV::Ready) => (ConnState::Serving, ConnActionV::ReadLine),
        (ConnState::ReadinessCheck, ConnEventV::ReadyTimeout) => (
            ConnState::Closed(CloseKind::BrokenPipe),
            ConnActionV::Stop,
        ),
        (ConnState::Serving, ConnEventV::Line(l)) => (
            ConnState::Replying,
            ConnActionV::Write(sp_respond(l)),
        ),
        (ConnState::Serving, ConnEventV::IdleTimeout) => (
            ConnState::Closed(CloseKind::Normal),
            ConnActionV::Stop,
        ),
        (ConnState::Serving, ConnEventV::Eof) => (
            ConnState::Closed(CloseKind::Normal),
            ConnActionV::Stop,
        ),
        (ConnState::Serving, ConnEventV::ReadFailed) => (
            ConnState::Closed(CloseKind::IoFailure),
            ConnActionV::Stop,
        ),
        (ConnState::Replying, ConnEventV::Wrote) => (ConnState::Serving, ConnActionV::ReadLine),
        (ConnState::Replying, ConnEventV::WriteFailed) => (
            ConnState::Closed(CloseKind::IoFailure),
            ConnActionV::Stop,
        ),
        (ConnState::Closed(k), _) => (ConnState::Closed(k), ConnActionV::Stop),
        // An event the current state cannot produce: the driver broke the
        // protocol; the connection is abandoned as an I/O failure.
        _ => (ConnState::Closed(CloseKind::IoFailure), ConnActionV::Stop),
    }
}

/// Performs one transition; returns exactly [`sp_step`] of state and event.
pub fn step(st: ConnState, ev: ConnEvent) -> (r: (ConnState, ConnAction))
    ensures
        r.0 == sp_step(st, ev@).0,
        r.1@ == sp_step(st, ev@).1,
{
    match (st, ev) {
        (ConnState::Accepted, ConnEvent::Start) => (ConnState::ReadinessCheck, ConnAction::WaitReady),
        (ConnState::ReadinessCheck, ConnEvent::Ready) => (ConnState::Serving, ConnAction::ReadLine),
        (ConnState::ReadinessCheck, ConnEvent::ReadyTimeout) => (
            ConnState::Closed(CloseKind::BrokenPipe),
            ConnAction::Stop,
        ),
        (ConnState::Serving, ConnEvent::Line(l)) => (
            ConnState::Replying,
            ConnAction::Write(respond(l.as_slice())),
        ),
        (ConnState::Serving, ConnEvent::IdleTimeout) => (
            ConnState::Closed(CloseKind::Normal),
            ConnAction::Stop,
        ),
        (ConnState::Serving, ConnEvent::Eof) => (ConnState::Closed(CloseKind::Normal), ConnAction::Stop),
        (ConnState::Serving, ConnEvent::ReadFailed) => (
            ConnState::Closed(CloseKind::IoFailure),
            ConnAction::Stop,
        ),
        (ConnState::Replying, ConnEvent::Wrote) => (ConnState::Serving, ConnAction::ReadLine),
        (ConnState::Replying, ConnEvent::WriteFailed) => (
            ConnState::Closed(CloseKind::IoFailure),
            ConnAction::Stop,
        ),
        (ConnState::Closed(k), _) => (ConnState::Closed(k), ConnAction::Stop),
        _ => (ConnState::Closed(CloseKind::IoFailure), ConnAction::Stop),
    }
}

// ---------------------------------------------------------------------------
// Laws of the protocol.
// ---------------------------------------------------------------------------

/// A well-formed `initialize` request — whatever its path and timeout —
/// is always answered with the affirmative line `{"result":true}`.
pub proof fn lemma_initialize_affirmative(line: Seq<u8>)
    requires
        sp_decode_query(line) matches Ok(q) && q is Initialize,
    ensures
        sp_respond(line) == sp_affirmative_line(),
{
}

/// A well-formed `lookup` request — whatever its qtype, qname, zone id and
/// optional addresses — is answered with `{"result":false}` under the stub
/// policy.
pub proof fn lemma_lookup_negative(line: Seq<u8>)
    requires
        sp_decode_query(line) matches Ok(q) && q is Lookup,
    ensures
        sp_respond(line) == sp_negative_line(),
{
}

/// A line that does not decode — broken JSON, a bad envelope, an unknown
/// method, bad parameters — is answered with `{"result":false}`, not echoed
/// and not dropped.
pub proof fn lemma_undecodable_negative(line: Seq<u8>)
    requires
        sp_decode_query(line) is Err,
    ensures
        sp_respond(line) == sp_negative_line(),
{
}

/// No line closes the connection: every line moves a serving connection to
/// `Replying` with its reply, and a flushed reply returns it to `Serving`,
/// so a later well-formed line on the same connection is still answered by
/// [`sp_respond`]. Only timeouts, the peer and I/O failures close.
pub proof fn lemma_line_never_closes(l: Seq<u8>)
    ensures
        sp_step(ConnState::Serving, ConnEventV::Line(l)) == (
            ConnState::Replying,
            ConnActionV::Write(sp_respond(l)),
        ),
        sp_step(ConnState::Replying, ConnEventV::Wrote) == (
            ConnState::Serving,
            ConnActionV::ReadLine,
        ),
{
}

/// Idle timeout: a connection that hears nothing within the idle window is
/// closed quietly — no error class, and no reply is sent.
pub proof fn lemma_idle_closes_quietly()
    ensures
        sp_step(ConnState::Serving, ConnEventV::IdleTimeout) == (
            ConnState::Closed(CloseKind::Normal),
            ConnActionV::Stop,
        ),
{
}

/// Readiness timeout: a stream that never becomes ready is closed with a
/// broken-pipe-class error, and no event in that state can make the machine
/// emit a reply — the decode path is never reached.
pub proof fn lemma_ready_timeout_closes_unread(ev: ConnEventV)
    ensures
        sp_step(ConnState::ReadinessCheck, ConnEventV::ReadyTimeout) == (
            ConnState::Closed(CloseKind::BrokenPipe),
            ConnActionV::Stop,
        ),
        !(sp_step(ConnState::ReadinessCheck, ev).1 is Write),
{
}

/// Exactly one reply per request line: the machine writes bytes only as the
/// immediate answer to a line received while serving, and what it writes is
/// that line's reply.
pub proof fn lemma_one_reply_per_line(st: ConnState, ev: ConnEventV)
    ensures
        sp_step(st, ev).1 is Write ==> st is Serving && ev is Line && sp_step(st, ev).1
            == ConnActionV::Write(sp_respond(ev->Line_0)),
{
}


/// Whatever one line holds — any of the six methods with well-formed
/// parameters, or garbage — decoding it and encoding the default reply
/// yields a single well-formed JSON line: one newline at its end, and bytes
/// before it that parse back as a JSON value.
pub proof fn lemma_reply_well_formed(line: Seq<u8>)
    ensures
        sp_respond(line).len() > 0,
        sp_respond(line).last() == 0x0a,
        sp_parse(sp_respond(line).drop_last()) is Some,
{
    lemma_reply_line_form(true);
    lemma_reply_line_form(false);
}

} // verus!

//! The session's decisions: what to do with the bytes that have arrived, and
//! what to answer.
//!
//! Nothing here reads or writes. The caller owns the transport: it hands over
//! the bytes that it holds, performs the `Action` that comes back, and sends
//! the bytes of the response.

use vstd::prelude::*;

use crate::checksum::{compute_checksum, hex_digit, spec_checksum, spec_hex};
use crate::command::{command, spec_command, Command};
use crate::packet::{
    frame_bytes, frame_round_trip, run_parser, spec_run_parser, Packet, PacketView,
};
use crate::parse::{Parsed, ParsedView, DOLLAR, HASH, MINUS, PLUS};

verus! {

/// The debug target behind the session.
pub trait Handler {
    /// The target's part in the negotiation of features. Does nothing unless
    /// the target says otherwise.
    fn query_supported_features() {
    }

    /// Answers one decoded command with the payload of the response, or with
    /// `None` where the target does not implement the command. A target that
    /// does not say otherwise implements no command.
    fn handle_command(&self, command: &Command<'_>) -> (reply: Option<Vec<u8>>)
        default_ensures
            reply is None,
    {
        None
    }
}

/// A payload as a data frame: `$`, the payload, `#`, and the two lower-case
/// hexadecimal digits of the payload's checksum.
pub open spec fn spec_frame(payload: Seq<u8>) -> Seq<u8> {
    let digits = spec_hex(spec_checksum(payload));
    frame_bytes(payload, digits[0], digits[1])
}

/// Wraps a payload in a data frame.
pub fn frame(payload: &[u8]) -> (bytes: Vec<u8>)
    ensures
        bytes@ == spec_frame(payload@),
{
    let sum = compute_checksum(payload);
    let mut bytes: Vec<u8> = Vec::new();
    bytes.push(DOLLAR);
    let mut i: usize = 0;
    while i < payload.len()
        invariant
            i <= payload@.len(),
            bytes@ == seq![DOLLAR] + payload@.take(i as int),
        decreases payload@.len() - i,
    {
        bytes.push(payload[i]);
        assert(payload@.take(i + 1) =~= payload@.take(i as int).push(payload@[i as int]));
        i += 1;
    }
    assert(payload@.take(i as int) =~= payload@);
    bytes.push(HASH);
    bytes.push(hex_digit(sum / 16));
    bytes.push(hex_digit(sum % 16));
    assert(bytes@ =~= spec_frame(payload@));
    bytes
}

/// The response to a command that is not supported: the frame of the empty
/// payload, `$#00`.
pub open spec fn spec_unsupported() -> Seq<u8> {
    seq![DOLLAR, HASH, 0x30, 0x30]
}

/// The response to a command that is not supported.
pub fn unsupported() -> (bytes: Vec<u8>)
    ensures
        bytes@ == spec_unsupported(),
{
    let mut bytes: Vec<u8> = Vec::new();
    bytes.push(DOLLAR);
    bytes.push(HASH);
    bytes.push(0x30);
    bytes.push(0x30);
    assert(bytes@ =~= spec_unsupported());
    bytes
}

/// The response to a command that is not supported is itself a well-formed
/// frame: that of the empty payload, whose checksum is 0.
pub proof fn unsupported_is_a_frame()
    ensures
        spec_unsupported() == spec_frame(Seq::empty()),
{
    assert(spec_checksum(Seq::empty()) == 0);
    assert(spec_unsupported() =~= spec_frame(Seq::empty()));
}

/// The bytes to send for what the target answered: its payload in a frame, or
/// the unsupported response where it gave none.
pub open spec fn spec_response(reply: Option<Seq<u8>>) -> Seq<u8> {
    match reply {
        Some(payload) => spec_frame(payload),
        None => spec_unsupported(),
    }
}

/// The view of an optional payload.
pub open spec fn reply_view(reply: Option<Vec<u8>>) -> Option<Seq<u8>> {
    match reply {
        Some(payload) => Some(payload@),
        None => None,
    }
}

/// Turns the target's answer to a command into the bytes to send.
pub fn response(reply: Option<Vec<u8>>) -> (bytes: Vec<u8>)
    ensures
        bytes@ == spec_response(reply_view(reply)),
{
    match reply {
        Some(payload) => frame(payload.as_slice()),
        None => unsupported(),
    }
}

/// Handle a single packet `data` with `handler` and return the response to
/// send. A payload that is no command is answered with the unsupported
/// response, and the handler is not asked. A payload that is a command goes to
/// the handler, and the response is made of the handler's answer.
pub fn handle_packet<H: Handler>(data: &[u8], handler: &H) -> (bytes: Vec<u8>)
    ensures
        !(spec_command(data@) is Done) ==> bytes@ == spec_unsupported(),
        exists|reply: Option<Seq<u8>>| bytes@ == spec_response(reply),
{
    if let Parsed::Done(_, command) = command(data) {
        let reply = handler.handle_command(&command);
        let bytes = response(reply);
        assert(bytes@ == spec_response(reply_view(reply)));
        bytes
    } else {
        let bytes = unsupported();
        assert(bytes@ == spec_response(None));
        bytes
    }
}

/// What the session does next.
#[derive(Debug, PartialEq, Eq)]
pub enum Action {
    /// The buffer starts with no whole frame: take nothing, and wait for more
    /// input.
    Wait,
    /// The peer's `+` or `-`: pass over that many bytes, and send nothing.
    Ignore(usize),
    /// A data frame whose checksum is wrong: pass over that many bytes, and
    /// send `-`. The payload is not decoded.
    Reject(usize),
    /// A data frame whose checksum is right: pass over that many bytes, send
    /// `+`, then handle the payload and send the response.
    Accept(usize, Vec<u8>),
}

/// Mathematical counterpart of [`Action`].
pub enum ActionView {
    Wait,
    Ignore(int),
    Reject(int),
    Accept(int, Seq<u8>),
}

impl View for Action {
    type V = ActionView;

    open spec fn view(&self) -> ActionView {
        match *self {
            Action::Wait => ActionView::Wait,
            Action::Ignore(n) => ActionView::Ignore(n as int),
            Action::Reject(n) => ActionView::Reject(n as int),
            Action::Accept(n, payload) => ActionView::Accept(n as int, payload@),
        }
    }
}

impl ActionView {
    /// How many bytes of the buffer the action passes over.
    pub open spec fn consumed(self) -> int {
        match self {
            ActionView::Wait => 0,
            ActionView::Ignore(n) => n,
            ActionView::Reject(n) => n,
            ActionView::Accept(n, _) => n,
        }
    }

    /// The byte that the action sends to the peer at once, if any.
    pub open spec fn acknowledgement(self) -> Option<u8> {
        match self {
            ActionView::Accept(_, _) => Some(PLUS),
            ActionView::Reject(_) => Some(MINUS),
            _ => None,
        }
    }

    /// The payload that the action hands on to be decoded, if any.
    pub open spec fn dispatched(self) -> Option<Seq<u8>> {
        match self {
            ActionView::Accept(_, payload) => Some(payload),
            _ => None,
        }
    }
}

impl Action {
    /// How many bytes of the buffer the action passes over.
    pub fn consumed(&self) -> (n: usize)
        ensures
            n == self@.consumed(),
    {
        match self {
            Action::Wait => 0,
            Action::Ignore(n) => *n,
            Action::Reject(n) => *n,
            Action::Accept(n, _) => *n,
        }
    }

    /// The byte that the action sends to the peer at once, if any.
    pub fn acknowledgement(&self) -> (byte: Option<u8>)
        ensures
            byte == self@.acknowledgement(),
    {
        match self {
            Action::Accept(_, _) => Some(PLUS),
            Action::Reject(_) => Some(MINUS),
            _ => None,
        }
    }
}

/// What the session does with the buffer `buf`. Without a whole frame at the
/// start of `buf` it waits. It passes over the peer's `+` and `-`. It recomputes
/// the checksum of a data frame's payload: where that is the checksum that the
/// frame claims, the frame is accepted, else it is rejected.
pub open spec fn spec_next_action(buf: Seq<u8>) -> ActionView {
    match spec_run_parser(buf) {
        None => ActionView::Wait,
        Some((n, PacketView::Data(payload, sum))) => if spec_checksum(payload) == sum {
            ActionView::Accept(n, payload)
        } else {
            ActionView::Reject(n)
        },
        Some((n, _)) => ActionView::Ignore(n),
    }
}

/// Decides what to do with the bytes that the session holds.
pub fn next_action(buf: &[u8]) -> (action: Action)
    ensures
        action@ == spec_next_action(buf@),
{
    match run_parser(buf) {
        None => Action::Wait,
        Some((n, Packet::Data(payload, sum))) => if compute_checksum(payload.as_slice()) == sum {
            Action::Accept(n, payload)
        } else {
            Action::Reject(n)
        },
        Some((n, _)) => Action::Ignore(n),
    }
}

/// A frame with the right checksum, whatever follows it, is accepted: the
/// session passes over the frame and no further, sends the one byte `+`, and
/// hands the payload on.
pub proof fn sound_frame_is_accepted(payload: Seq<u8>, tail: Seq<u8>)
    requires
        !payload.contains(HASH),
    ensures
        ({
            let action = spec_next_action(spec_frame(payload) + tail);
            &&& action == ActionView::Accept(payload.len() as int + 4, payload)
            &&& action.acknowledgement() == Some(PLUS)
            &&& action.dispatched() == Some(payload)
        }),
{
    frame_round_trip(payload, spec_checksum(payload), tail);
}

/// The same frame with any other checksum is rejected: the session passes
/// over the frame and no further, sends the one byte `-`, and hands nothing on.
pub proof fn corrupt_frame_is_rejected(payload: Seq<u8>, claimed: u8, tail: Seq<u8>)
    requires
        !payload.contains(HASH),
        claimed != spec_checksum(payload),
    ensures
        ({
            let digits = spec_hex(claimed);
            let action = spec_next_action(frame_bytes(payload, digits[0], digits[1]) + tail);
            &&& action == ActionView::Reject(payload.len() as int + 4)
            &&& action.acknowledgement() == Some(MINUS)
            &&& action.dispatched() is None
        }),
{
    frame_round_trip(payload, claimed, tail);
}

/// The session keeps nothing from one frame to the next. Once a rejected
/// frame is passed over, the sound frame that the peer sends again is accepted
/// just as if it had come first: the same bytes passed over, the same `+`, the
/// same payload handed on.
pub proof fn resent_frame_is_accepted(
    garbled: Seq<u8>,
    claimed: u8,
    payload: Seq<u8>,
    tail: Seq<u8>,
)
    requires
        !garbled.contains(HASH),
        !payload.contains(HASH),
        claimed != spec_checksum(garbled),
    ensures
        ({
            let digits = spec_hex(claimed);
            let rejected = frame_bytes(garbled, digits[0], digits[1]);
            let buf = rejected + (spec_frame(payload) + tail);
            let first = spec_next_action(buf);
            &&& first == ActionView::Reject(rejected.len() as int)
            &&& spec_next_action(buf.skip(first.consumed())) == spec_next_action(
                spec_frame(payload) + tail,
            )
            &&& spec_next_action(buf.skip(first.consumed())) == ActionView::Accept(
                payload.len() as int + 4,
                payload,
            )
        }),
{
    let digits = spec_hex(claimed);
    let rejected = frame_bytes(garbled, digits[0], digits[1]);
    let rest = spec_frame(payload) + tail;
    corrupt_frame_is_rejected(garbled, claimed, rest);
    sound_frame_is_accepted(payload, tail);
    assert((rejected + rest).skip(rejected.len() as int) =~= rest);
}

} // verus!

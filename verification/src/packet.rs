//! The packet reader: data frames, acknowledgements and rejections out of a
//! byte buffer.

use vstd::prelude::*;
use vstd::slice::slice_to_vec;

use crate::checksum::{checksum, hex_round_trip, spec_hex, spec_parse_checksum};
use crate::parse::{
    find_byte, first_index_of, first_index_of_bounds, first_index_of_unique, need, need_more, skip,
    take, ErrorKind, Needed, Parsed, ParsedView, DOLLAR, HASH, MINUS, PLUS,
};

verus! {

/// A frame as it stands on the wire.
#[derive(Debug, PartialEq, Eq)]
pub enum Packet {
    /// The peer confirms the frame that it was sent.
    Ack,
    /// The peer rejects the frame that it was sent.
    Nack,
    /// A payload, and the checksum that the frame claims for it. The claim is
    /// not checked here.
    Data(Vec<u8>, u8),
}

/// Mathematical counterpart of [`Packet`].
pub enum PacketView {
    Ack,
    Nack,
    Data(Seq<u8>, u8),
}

impl View for Packet {
    type V = PacketView;

    open spec fn view(&self) -> PacketView {
        match *self {
            Packet::Ack => PacketView::Ack,
            Packet::Nack => PacketView::Nack,
            Packet::Data(payload, sum) => PacketView::Data(payload@, sum),
        }
    }
}

/// What `packet` makes of `input`. A data frame is `$`, a payload that runs up
/// to the first `#`, the `#`, and two hexadecimal digits. Input that stops
/// before the frame does asks for the length at which the next part would be
/// complete.
pub open spec fn spec_packet(input: Seq<u8>) -> ParsedView<(Seq<u8>, u8)> {
    if input.len() == 0 {
        ParsedView::Incomplete(need(1))
    } else if input[0] != DOLLAR {
        ParsedView::Error(ErrorKind::UnrecognizedPacket)
    } else {
        let body = input.skip(1);
        let end = first_index_of(body, HASH);
        if end == body.len() {
            ParsedView::Incomplete(need(input.len() as int + 1))
        } else {
            match spec_parse_checksum(body.skip(end + 1)) {
                ParsedView::Done(rest, sum) => ParsedView::Done(rest, (body.take(end), sum)),
                ParsedView::Incomplete(_) => ParsedView::Incomplete(need(end + 4)),
                ParsedView::Error(e) => ParsedView::Error(e),
            }
        }
    }
}

/// Parses a data frame from the start of `input`: its payload and the checksum
/// that it claims.
pub fn packet<'a>(input: &'a [u8]) -> (parsed: Parsed<'a, (Vec<u8>, u8)>)
    ensures
        parsed@ == spec_packet(input@),
{
    if input.len() == 0 {
        return Parsed::Incomplete(Needed::Size(1));
    }
    if input[0] != DOLLAR {
        return Parsed::Error(ErrorKind::UnrecognizedPacket);
    }
    let body = skip(input, 1);
    let end = find_byte(body, HASH);
    if end == body.len() {
        return Parsed::Incomplete(need_more(input.len(), 1));
    }
    match checksum(skip(body, end + 1)) {
        Parsed::Done(rest, sum) => Parsed::Done(rest, (slice_to_vec(take(body, end)), sum)),
        Parsed::Incomplete(_) => Parsed::Incomplete(need_more(end, 4)),
        Parsed::Error(e) => Parsed::Error(e),
    }
}

/// What `packet_or_response` makes of `input`: a data frame, or the single
/// byte `+` or `-`.
pub open spec fn spec_packet_or_response(input: Seq<u8>) -> ParsedView<PacketView> {
    match spec_packet(input) {
        ParsedView::Done(rest, (payload, sum)) => ParsedView::Done(
            rest,
            PacketView::Data(payload, sum),
        ),
        ParsedView::Incomplete(n) => ParsedView::Incomplete(n),
        ParsedView::Error(e) => if input.len() > 0 && input[0] == PLUS {
            ParsedView::Done(input.skip(1), PacketView::Ack)
        } else if input.len() > 0 && input[0] == MINUS {
            ParsedView::Done(input.skip(1), PacketView::Nack)
        } else {
            ParsedView::Error(e)
        },
    }
}

/// Parses one frame of any of the three forms from the start of `input`.
pub fn packet_or_response<'a>(input: &'a [u8]) -> (parsed: Parsed<'a, Packet>)
    ensures
        parsed@ == spec_packet_or_response(input@),
{
    match packet(input) {
        Parsed::Done(rest, (payload, sum)) => Parsed::Done(rest, Packet::Data(payload, sum)),
        Parsed::Incomplete(n) => Parsed::Incomplete(n),
        Parsed::Error(e) => if input.len() > 0 && input[0] == PLUS {
            Parsed::Done(skip(input, 1), Packet::Ack)
        } else if input.len() > 0 && input[0] == MINUS {
            Parsed::Done(skip(input, 1), Packet::Nack)
        } else {
            Parsed::Error(e)
        },
    }
}

/// What is left of `input` after a frame is a part of `input` and shorter
/// than it.
pub proof fn frame_is_consumed(input: Seq<u8>)
    ensures
        spec_packet_or_response(input) matches ParsedView::Done(rest, _) ==> rest.len()
            < input.len() && rest == input.skip(input.len() - rest.len()),
{
    if input.len() > 0 && input[0] == DOLLAR {
        let body = input.skip(1);
        let end = first_index_of(body, HASH);
        first_index_of_bounds(body, HASH);
        if end + 3 <= body.len() {
            assert(body.skip(end + 1).skip(2) =~= input.skip(end + 4));
        }
    }
}

/// How far `to` lies behind the start of `from`, where `to` is what a parser
/// left of `from`.
pub fn offset(from: &[u8], to: &[u8]) -> (distance: usize)
    requires
        to@.len() <= from@.len(),
    ensures
        distance == from@.len() - to@.len(),
{
    from.len() - to.len()
}

/// The frame at the start of `buf` and its length in bytes, where `buf` starts
/// with a whole frame.
pub open spec fn spec_run_parser(buf: Seq<u8>) -> Option<(int, PacketView)> {
    let parsed = spec_packet_or_response(buf);
    match parsed {
        ParsedView::Done(_, packet) => Some((parsed.consumed(buf), packet)),
        _ => None,
    }
}

/// The view of what `run_parser` returns.
pub open spec fn frame_view(frame: Option<(usize, Packet)>) -> Option<(int, PacketView)> {
    match frame {
        Some((len, packet)) => Some((len as int, packet@)),
        None => None,
    }
}

/// Reads one frame from the start of `buf`. Returns the frame and the number
/// of bytes that it takes up, from the first byte of `buf` to the last byte of
/// the frame; returns `None` where `buf` holds no whole frame at its start.
pub fn run_parser(buf: &[u8]) -> (frame: Option<(usize, Packet)>)
    ensures
        frame_view(frame) == spec_run_parser(buf@),
{
    if let Parsed::Done(rest, packet) = packet_or_response(buf) {
        proof {
            frame_is_consumed(buf@);
        }
        Some((offset(buf, rest), packet))
    } else {
        None
    }
}

/// The bytes of a data frame: `$`, the payload, `#`, and two digits.
pub open spec fn frame_bytes(payload: Seq<u8>, high: u8, low: u8) -> Seq<u8> {
    seq![DOLLAR] + payload + seq![HASH, high, low]
}

/// A frame made of a payload without `#` and of any two bytes after the `#` is
/// read as `packet` reads its parts: the payload is found again, and the two
/// bytes go to the checksum parser together with what follows the frame.
pub proof fn frame_is_split(payload: Seq<u8>, high: u8, low: u8, tail: Seq<u8>)
    requires
        !payload.contains(HASH),
    ensures
        spec_packet(frame_bytes(payload, high, low) + tail) == match spec_parse_checksum(
            seq![high, low] + tail,
        ) {
            ParsedView::Done(rest, sum) => ParsedView::Done(rest, (payload, sum)),
            ParsedView::Incomplete(_) => ParsedView::Incomplete(need(payload.len() as int + 4)),
            ParsedView::Error(e) => ParsedView::Error(e),
        },
{
    let input = frame_bytes(payload, high, low) + tail;
    let body = input.skip(1);
    assert(input[0] == DOLLAR);
    assert(body =~= payload + seq![HASH, high, low] + tail);
    assert forall|j: int| 0 <= j < payload.len() implies body[j] != HASH by {
        assert(body[j] == payload[j]);
        assert(payload.contains(payload[j]));
    }
    assert(body[payload.len() as int] == HASH);
    first_index_of_unique(body, HASH, payload.len() as int);
    assert(body.take(payload.len() as int) =~= payload);
    assert(body.skip(payload.len() as int + 1) =~= seq![high, low] + tail);
}

/// Round trip: a frame written as `$`, a payload without `#`, `#` and the two
/// digits of a checksum is read back as that payload and that checksum,
/// whatever follows it. The reader takes up the frame's
/// `1 + payload.len() + 1 + 2` bytes and leaves what follows untouched.
pub proof fn frame_round_trip(payload: Seq<u8>, sum: u8, tail: Seq<u8>)
    requires
        !payload.contains(HASH),
    ensures
        ({
            let digits = spec_hex(sum);
            let input = frame_bytes(payload, digits[0], digits[1]) + tail;
            &&& spec_packet_or_response(input) == ParsedView::Done(
                tail,
                PacketView::Data(payload, sum),
            )
            &&& spec_run_parser(input) == Some(
                (1 + payload.len() as int + 1 + 2, PacketView::Data(payload, sum)),
            )
        }),
{
    let digits = spec_hex(sum);
    frame_is_split(payload, digits[0], digits[1], tail);
    hex_round_trip(sum, tail);
    assert(seq![digits[0], digits[1]] =~= digits);
}

/// Every proper prefix of a data frame asks for more input, and is never an
/// error: the reader finds no frame in it.
pub proof fn frame_prefix_is_incomplete(payload: Seq<u8>, high: u8, low: u8, len: int)
    requires
        !payload.contains(HASH),
        0 <= len < payload.len() + 4,
    ensures
        spec_packet(frame_bytes(payload, high, low).take(len)) is Incomplete,
        spec_packet_or_response(frame_bytes(payload, high, low).take(len)) is Incomplete,
        spec_run_parser(frame_bytes(payload, high, low).take(len)) is None,
{
    let frame = frame_bytes(payload, high, low);
    let input = frame.take(len);
    if len > 0 {
        let body = input.skip(1);
        assert(input[0] == DOLLAR);
        if len <= payload.len() + 1 {
            assert forall|j: int| 0 <= j < body.len() implies body[j] != HASH by {
                assert(body[j] == payload[j]);
                assert(payload.contains(payload[j]));
            }
            first_index_of_unique(body, HASH, body.len() as int);
        } else {
            assert forall|j: int| 0 <= j < payload.len() implies body[j] != HASH by {
                assert(body[j] == payload[j]);
                assert(payload.contains(payload[j]));
            }
            assert(body[payload.len() as int] == HASH);
            first_index_of_unique(body, HASH, payload.len() as int);
        }
    }
}

} // verus!

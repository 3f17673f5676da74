use gdb_remote_protocol::Parsed::{Done, Error, Incomplete};
use gdb_remote_protocol::{
    compute_checksum, offset, packet, packet_or_response, run_parser, ErrorKind, Needed, Packet,
};

#[test]
fn empty_buffer_needs_a_byte() {
    assert_eq!(packet(b""), Incomplete(Needed::Size(1)));
    assert_eq!(packet_or_response(b""), Incomplete(Needed::Size(1)));
    assert_eq!(run_parser(b""), None);
}

#[test]
fn packet_rejects_another_lead_byte() {
    assert_eq!(packet(b"x"), Error(ErrorKind::UnrecognizedPacket));
    assert_eq!(packet(b"+"), Error(ErrorKind::UnrecognizedPacket));
    assert_eq!(packet(b"#00"), Error(ErrorKind::UnrecognizedPacket));
    assert_eq!(packet(b"abc$#00"), Error(ErrorKind::UnrecognizedPacket));
}

#[test]
fn packet_rejects_a_checksum_that_is_not_hex() {
    assert_eq!(packet(b"$abc#zz"), Error(ErrorKind::MalformedChecksum));
    assert_eq!(packet(b"$abc#0x"), Error(ErrorKind::MalformedChecksum));
    assert_eq!(packet(b"$#+0"), Error(ErrorKind::MalformedChecksum));
}

#[test]
fn packet_does_not_check_the_checksum() {
    assert_eq!(packet(b"$abc#00"), Done(&b""[..], (b"abc".to_vec(), 0)));
    assert_ne!(compute_checksum(b"abc"), 0);
}

#[test]
fn payload_ends_at_the_first_hash() {
    assert_eq!(packet(b"$ab#12#34"), Done(&b"#34"[..], (b"ab".to_vec(), 0x12)));
    assert_eq!(packet(b"$$$#AB"), Done(&b""[..], (b"$$".to_vec(), 0xab)));
}

#[test]
fn payload_may_hold_any_byte_but_hash() {
    let input = [b'$', 0x00, 0xff, b'+', b'-', b'#', b'0', b'1'];
    assert_eq!(packet(&input), Done(&b""[..], (vec![0x00, 0xff, b'+', b'-'], 1)));
}

#[test]
fn incomplete_frames_ask_for_more_and_are_no_error() {
    let prefixes: [&[u8]; 5] = [b"$", b"$#", b"$xyz", b"$xyz#", b"$xyz#a"];
    for prefix in prefixes {
        assert!(matches!(packet(prefix), Incomplete(_)));
        assert!(matches!(packet_or_response(prefix), Incomplete(_)));
        assert_eq!(run_parser(prefix), None);
    }
}

#[test]
fn every_proper_prefix_of_a_frame_is_incomplete() {
    let frame = b"$qSupported:multiprocess+#e1";
    for len in 0..frame.len() {
        assert!(matches!(packet(&frame[..len]), Incomplete(_)));
        assert_eq!(run_parser(&frame[..len]), None);
    }
    assert!(matches!(packet(&frame[..]), Done(_, _)));
}

#[test]
fn needed_counts_from_the_start_of_the_buffer() {
    assert_eq!(packet(b"$0123456789"), Incomplete(Needed::Size(12)));
    assert_eq!(packet(b"$0123456789#"), Incomplete(Needed::Size(14)));
    assert_eq!(packet(b"$0123456789#z"), Incomplete(Needed::Size(14)));
    assert_eq!(packet_or_response(b"$0123456789#"), Incomplete(Needed::Size(14)));
}

#[test]
fn ack_and_nack_take_one_byte() {
    assert_eq!(packet_or_response(b"+"), Done(&b""[..], Packet::Ack));
    assert_eq!(packet_or_response(b"-"), Done(&b""[..], Packet::Nack));
    assert_eq!(run_parser(b"+"), Some((1, Packet::Ack)));
    assert_eq!(run_parser(b"-"), Some((1, Packet::Nack)));
    assert_eq!(packet_or_response(b"+$#00"), Done(&b"$#00"[..], Packet::Ack));
    assert_eq!(packet_or_response(b"--+"), Done(&b"-+"[..], Packet::Nack));
    assert_eq!(run_parser(b"+$#00"), Some((1, Packet::Ack)));
}

#[test]
fn packet_or_response_keeps_the_error_of_the_frame() {
    assert_eq!(packet_or_response(b"x"), Error(ErrorKind::UnrecognizedPacket));
    assert_eq!(packet_or_response(b"x+"), Error(ErrorKind::UnrecognizedPacket));
    assert_eq!(packet_or_response(b"$a#zz"), Error(ErrorKind::MalformedChecksum));
    assert_eq!(run_parser(b"x"), None);
    assert_eq!(run_parser(b"$a#zz"), None);
}

#[test]
fn run_parser_counts_the_bytes_of_the_frame() {
    assert_eq!(run_parser(b"$#00"), Some((4, Packet::Data(vec![], 0))));
    assert_eq!(run_parser(b"$foo#ffxyz"), Some((7, Packet::Data(b"foo".to_vec(), 0xff))));
    assert_eq!(run_parser(b"$foo#ff$bar#00"), Some((7, Packet::Data(b"foo".to_vec(), 0xff))));
}

#[test]
fn round_trip_of_a_framed_payload() {
    let payloads: [&[u8]; 4] = [b"", b"g", b"qSupported:multiprocess+;xmlRegisters=i386", b"$+-"];
    let tails: [&[u8]; 3] = [b"", b"+", b"$next#00"];
    for payload in payloads {
        for sum in [0x00u8, 0x0f, 0x9a, 0xff] {
            for tail in tails {
                let mut wire = vec![b'$'];
                wire.extend_from_slice(payload);
                wire.push(b'#');
                wire.extend_from_slice(format!("{:02x}", sum).as_bytes());
                wire.extend_from_slice(tail);
                assert_eq!(packet_or_response(&wire), Done(tail, Packet::Data(payload.to_vec(), sum)));
                assert_eq!(
                    run_parser(&wire),
                    Some((1 + payload.len() + 1 + 2, Packet::Data(payload.to_vec(), sum)))
                );
            }
        }
    }
}

#[test]
fn offset_is_the_length_that_was_used_up() {
    let buf = b"$foo#ffxyz";
    assert_eq!(offset(buf, &buf[7..]), 7);
    assert_eq!(offset(buf, buf), 0);
    assert_eq!(offset(buf, &buf[10..]), 10);
}

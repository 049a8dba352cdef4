use wifi_nina::commands::socket::{socket_write_exchange, Socket};
use wifi_nina::commands::wifi::set_debug_exchange;
use wifi_nina::commands::{
    decode_response, encode_request, response_poller, response_start_step, Decoded, NinaCommand, Params,
    RecvParam, ReplyValue, SendParam, StartStep,
};
use wifi_nina::Error;

fn done(d: Decoded<()>) -> Vec<ReplyValue> {
    match d {
        Decoded::Done(v) => v,
        Decoded::Incomplete(n) => panic!("incomplete, needs {}", n),
        Decoded::Failed(e) => panic!("failed: {:?}", e),
    }
}

fn failed(d: Decoded<()>) -> Error<()> {
    match d {
        Decoded::Failed(e) => e,
        _ => panic!("expected a failure"),
    }
}

#[test]
fn set_debug_frame_is_padded_to_eight_bytes() {
    let ex = set_debug_exchange(true);
    let frame = encode_request(ex.command, &ex.send);
    assert_eq!(frame, vec![0xE0, 0x1A, 1, 1, 1, 0xEE, 0, 0]);
}

#[test]
fn frames_are_whole_words_for_every_payload_length() {
    for n in 0..40usize {
        for wide in [false, true] {
            let bytes: Vec<u8> = (0..n).map(|i| i as u8).collect();
            let ps = vec![SendParam::Byte(7), SendParam::Bytes(bytes)];
            let params = if wide { Params::with_16_bit_length(ps) } else { Params::of(ps) };
            let frame = encode_request(NinaCommand::SendDataTcp, &params);
            assert_eq!(frame.len() % 4, 0);
            let unpadded = 3 + (if wide { 2 } else { 1 }) * 2 + 1 + n + 1;
            assert!(frame.len() >= unpadded && frame.len() < unpadded + 4);
        }
    }
}

#[test]
fn write_frame_uses_two_byte_lengths() {
    let ex = socket_write_exchange(&Socket::new(0), b"GET / HTTP/1.0\r\n\r\n".to_vec());
    let frame = encode_request(ex.command, &ex.send);
    let mut expected = vec![0xE0, 0x44, 2, 0, 1, 0, 0, 18];
    expected.extend_from_slice(b"GET / HTTP/1.0\r\n\r\n");
    expected.push(0xEE);
    expected.push(0);
    assert_eq!(frame, expected);
}

#[test]
fn words_go_big_and_little_endian() {
    let params = Params::of(vec![SendParam::Word(0x1234), SendParam::LEWord(0x1234)]);
    let frame = encode_request(NinaCommand::Ping, &params);
    assert_eq!(frame, vec![0xE0, 0x3E, 2, 2, 0x12, 0x34, 2, 0x34, 0x12, 0xEE, 0, 0]);
}

#[test]
fn opcode_reply_flag_is_masked_on_send() {
    let frame = encode_request(NinaCommand::Start, &Params::none());
    assert_eq!(frame, vec![0xE0, 0x60, 0, 0xEE]);
}

#[test]
fn round_trip_narrow_and_wide() {
    for wide in [false, true] {
        let payload: Vec<u8> = vec![9, 8, 7, 6, 5];
        let send = vec![
            SendParam::Byte(42),
            SendParam::Word(0xBEEF),
            SendParam::LEWord(0x0102),
            SendParam::Bytes(payload.clone()),
        ];
        let slots = vec![RecvParam::Byte, RecvParam::Word, RecvParam::LEWord, RecvParam::ByteArray(5)];
        let (sp, rp) = if wide {
            (Params::with_16_bit_length(send), Params::with_16_bit_length(slots))
        } else {
            (Params::of(send), Params::of(slots))
        };
        let frame = encode_request(NinaCommand::Ping, &sp);
        let mut reply = vec![0x3E | 0x80];
        reply.extend_from_slice(&frame[2..frame.len()]);
        let values = done(decode_response(NinaCommand::Ping, &rp, &reply));
        assert_eq!(values.len(), 4);
        assert!(matches!(values[0], ReplyValue::Byte(42)));
        assert!(matches!(values[1], ReplyValue::Word(0xBEEF)));
        assert!(matches!(values[2], ReplyValue::Word(0x0102)));
        match &values[3] {
            ReplyValue::Bytes(v) => assert_eq!(v, &payload),
            _ => panic!("expected bytes"),
        }
    }
}

#[test]
fn error_sentinel_is_not_a_start_marker() {
    let mut poll = response_poller();
    assert_eq!(response_start_step(&mut poll, 0xEF), StartStep::ErrorResponse);
    let mut poll = response_poller();
    assert_eq!(response_start_step(&mut poll, 0xE0), StartStep::Started);
}

#[test]
fn response_start_times_out_after_one_hundred_reads() {
    let mut poll = response_poller();
    for _ in 0..99 {
        assert_eq!(response_start_step(&mut poll, 0xFF), StartStep::PauseThenRead);
    }
    assert_eq!(response_start_step(&mut poll, 0xFF), StartStep::PauseThenTimeOut);
}

#[test]
fn wrong_reply_opcode_is_unexpected_response() {
    let rp = Params::of(vec![RecvParam::Ack]);
    let e = failed(decode_response(NinaCommand::SetDebug, &rp, &vec![0x9B, 1, 1, 1]));
    assert!(matches!(e, Error::UnexpectedResponse(0x9A, 0x9B)));
}

#[test]
fn word_declared_with_one_byte_is_size_mismatch() {
    let rp = Params::of(vec![RecvParam::Word]);
    let e = failed(decode_response(NinaCommand::Ping, &rp, &vec![0xBE, 1, 1, 5]));
    assert!(matches!(e, Error::MismatchedParamSize(2, 1)));
}

#[test]
fn nack_is_unexpected_response() {
    let rp = Params::of(vec![RecvParam::Ack]);
    let e = failed(decode_response(NinaCommand::SetDebug, &rp, &vec![0x9A, 1, 1, 0]));
    assert!(matches!(e, Error::UnexpectedResponse(1, 0)));
}

#[test]
fn optional_byte_absent_when_count_exhausted() {
    let rp = Params::of(vec![RecvParam::OptionalByte]);
    let values = done(decode_response(NinaCommand::StartClientTcp, &rp, &vec![0xAD, 0]));
    assert!(matches!(values[0], ReplyValue::OptionalByte(None)));
    let values = done(decode_response(NinaCommand::StartClientTcp, &rp, &vec![0xAD, 1, 1, 3]));
    assert!(matches!(values[0], ReplyValue::OptionalByte(Some(3))));
}

#[test]
fn required_slot_missing_when_count_exhausted() {
    let rp = Params::of(vec![RecvParam::Byte, RecvParam::Byte]);
    let e = failed(decode_response(NinaCommand::Ping, &rp, &vec![0xBE, 1, 1, 5]));
    assert!(matches!(e, Error::MissingParam(1)));
}

#[test]
fn extra_parameters_are_unexpected() {
    let rp = Params::of(vec![RecvParam::Byte]);
    let e = failed(decode_response(NinaCommand::Ping, &rp, &vec![0xBE, 2, 1, 5, 1, 6]));
    assert!(matches!(e, Error::UnexpectedParam(1)));
}

#[test]
fn short_reply_asks_for_more() {
    let rp = Params::with_16_bit_length(vec![RecvParam::Buffer(10)]);
    let r: Decoded<()> = decode_response(NinaCommand::GetDatabufTcp, &rp, &vec![]);
    assert!(matches!(r, Decoded::Incomplete(1)));
    let r: Decoded<()> = decode_response(NinaCommand::GetDatabufTcp, &rp, &vec![0xC5, 1, 0]);
    assert!(matches!(r, Decoded::Incomplete(4)));
    let r: Decoded<()> = decode_response(NinaCommand::GetDatabufTcp, &rp, &vec![0xC5, 1, 0, 3, 1]);
    assert!(matches!(r, Decoded::Incomplete(7)));
}

#[test]
fn buffer_longer_than_its_room_is_refused() {
    let rp = Params::with_16_bit_length(vec![RecvParam::Buffer(2)]);
    let e = failed(decode_response(NinaCommand::GetDatabufTcp, &rp, &vec![0xC5, 1, 0, 3, 1, 2, 3]));
    assert!(matches!(e, Error::MismatchedParamSize(2, 3)));
}

#[test]
fn write_count_decodes_little_endian() {
    let ex = socket_write_exchange(&Socket::new(0), vec![1, 2, 3]);
    let values = done(decode_response(ex.command, &ex.recv, &vec![0xC4, 1, 2, 0x12, 0x01]));
    assert_eq!(wifi_nina::commands::socket::count_from_reply(&values), 0x0112);
}

#[test]
fn params_report_their_count_and_width() {
    let p: Params<SendParam> = Params::none();
    assert_eq!(p.len(), 0);
    assert!(!p.use_16_bit_length());
    let p = Params::with_16_bit_length(vec![RecvParam::Ack, RecvParam::Byte]);
    assert_eq!(p.len(), 2);
    assert!(p.use_16_bit_length());
}

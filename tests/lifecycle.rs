use wifi_nina::chip_select::{SelectAction, SelectHandshake, WifiNinaChipSelectError};
use wifi_nina::commands::network::{address_at, network_info_from_reply};
use wifi_nina::commands::socket::{
    available_exchange, client_from_reply, count_from_reply, fetch_exchange, fetched_bytes, open_accepted,
    open_poller, open_step, read_plan, read_when_empty, socket_from_reply, socket_open_exchange,
    socket_write_exchange, status_from_reply, Destination, InvalidSocket, OpenStep, Protocol, ReadOutcome,
    ReadPlan, Socket, SocketStatus,
};
use wifi_nina::commands::wifi::{join_poller, join_step, JoinStep, WifiStatus};
use wifi_nina::commands::{decode_response, encode_request, Decoded, ReplyValue};
use wifi_nina::Error;

fn done(d: Decoded<()>) -> Vec<ReplyValue> {
    match d {
        Decoded::Done(v) => v,
        _ => panic!("expected values"),
    }
}

#[test]
fn unknown_status_bytes_are_not_errors() {
    assert_eq!(SocketStatus::from(200), SocketStatus::UnknownStatus);
    assert_eq!(SocketStatus::from(4), SocketStatus::Established);
    assert_eq!(WifiStatus::from(200), WifiStatus::UnknownStatus);
    assert_eq!(WifiStatus::from(3), WifiStatus::Connected);
    assert_eq!(status_from_reply(&vec![ReplyValue::Byte(200)]), SocketStatus::UnknownStatus);
}

#[test]
fn invalid_socket_number_is_no_socket() {
    assert!(matches!(socket_from_reply::<()>(&vec![ReplyValue::Socket(255)]), Err(Error::NoSocketAvailable)));
    let s = socket_from_reply::<()>(&vec![ReplyValue::Socket(3)]).unwrap();
    assert_eq!(s.num(), 3);
    assert!(!InvalidSocket::valid(255));
    assert!(InvalidSocket::valid(0));
    let mut raw = InvalidSocket::new();
    *raw.num_mut() = 7;
    assert_eq!(raw.try_into_socket().unwrap().num(), 7);
    assert!(InvalidSocket::from(255).try_into_socket().is_err());
}

#[test]
fn accepted_client_is_checked() {
    assert!(matches!(client_from_reply::<()>(&vec![ReplyValue::Word(0x00FF)]), Err(Error::NoSocketAvailable)));
    assert_eq!(client_from_reply::<()>(&vec![ReplyValue::Word(2)]).unwrap().num(), 2);
}

#[test]
fn empty_read_on_closed_socket_is_end_of_stream() {
    assert_eq!(read_plan(0, 64), ReadPlan::CheckStatus);
    assert_eq!(read_when_empty(SocketStatus::Closed), ReadOutcome::Read(0));
    assert_eq!(read_when_empty(SocketStatus::Established), ReadOutcome::WouldBlock);
    assert_eq!(read_when_empty(SocketStatus::UnknownStatus), ReadOutcome::WouldBlock);
    assert_eq!(read_plan(100, 64), ReadPlan::Fetch(64));
    assert_eq!(read_plan(10, 64), ReadPlan::Fetch(10));
    assert_eq!(read_plan(10, 70000), ReadPlan::Fetch(10));
}

#[test]
fn select_times_out_after_exact_budgets() {
    let mut h = SelectHandshake::new();
    for _ in 0..9_999 {
        assert_eq!(h.on_busy_level(true), SelectAction::PauseThenReadBusy);
    }
    assert_eq!(h.on_busy_level(true), SelectAction::PauseThenTimeOut);

    let mut h = SelectHandshake::new();
    assert_eq!(h.on_busy_level(false), SelectAction::DriveCsLow);
    assert_eq!(h.on_cs_asserted(), SelectAction::ReadBusy);
    for _ in 0..999 {
        assert_eq!(h.on_busy_level(false), SelectAction::PauseThenReadBusy);
    }
    assert_eq!(h.on_busy_level(false), SelectAction::PauseThenTimeOut);
}

#[test]
fn select_succeeds_when_busy_line_answers() {
    let mut h = SelectHandshake::new();
    assert_eq!(h.on_busy_level(true), SelectAction::PauseThenReadBusy);
    assert_eq!(h.on_busy_level(false), SelectAction::DriveCsLow);
    assert_eq!(h.on_cs_asserted(), SelectAction::ReadBusy);
    assert_eq!(h.on_busy_level(true), SelectAction::Selected);
}

#[test]
fn chip_select_errors_map_to_driver_errors() {
    let e: Error<()> = Error::from_chip_select(WifiNinaChipSelectError::<(), ()>::DeviceReadyTimeout);
    assert!(matches!(e, Error::ChipSelectTimeout));
    let e: Error<()> = Error::from_chip_select(WifiNinaChipSelectError::<(), ()>::CsPinError(()));
    assert!(matches!(e, Error::ChipSelectPinError));
    let e: Error<()> = Error::from_chip_select(WifiNinaChipSelectError::<(), ()>::BusyPinError(()));
    assert!(matches!(e, Error::ChipSelectPinError));
}

#[test]
fn open_fails_with_last_status_after_three_hundred_polls() {
    let mut poll = open_poller();
    for _ in 0..299 {
        assert_eq!(open_step(&mut poll, SocketStatus::SynSent), OpenStep::PauseThenPoll);
    }
    assert_eq!(open_step(&mut poll, SocketStatus::Closing), OpenStep::PauseThenFail(SocketStatus::Closing));
}

#[test]
fn refused_open_is_connection_failure() {
    assert!(matches!(
        open_accepted::<()>(&vec![ReplyValue::OptionalByte(None)]),
        Err(Error::SocketConnectionFailed(SocketStatus::UnknownStatus))
    ));
    assert!(open_accepted::<()>(&vec![ReplyValue::OptionalByte(Some(1))]).is_ok());
}

#[test]
fn join_fails_after_five_polls() {
    let mut poll = join_poller();
    for _ in 0..4 {
        assert_eq!(join_step(&mut poll, WifiStatus::Idle), JoinStep::PauseThenPoll);
    }
    assert_eq!(join_step(&mut poll, WifiStatus::NoSsidAvailable), JoinStep::PauseThenFail(WifiStatus::NoSsidAvailable));
    let mut poll = join_poller();
    assert_eq!(join_step(&mut poll, WifiStatus::Connected), JoinStep::Connected);
}

#[test]
fn destination_text() {
    assert_eq!(Destination::Ip([192, 0, 2, 1]).to_text(), "192.0.2.1.");
    assert_eq!(Destination::Ip([0, 10, 255, 99]).to_text(), "0.10.255.99.");
    assert_eq!(Destination::Hostname("example.com").to_text(), "example.com");
}

#[test]
fn hostname_open_sends_name_and_zero_address() {
    let ex = socket_open_exchange(&Socket::new(1), Protocol::TLS, &Destination::Hostname("ab"), 443);
    let frame = encode_request(ex.command, &ex.send);
    assert_eq!(
        frame,
        vec![0xE0, 0x2D, 5, 2, b'a', b'b', 4, 0, 0, 0, 0, 2, 0x01, 0xBB, 1, 1, 1, 2, 0xEE, 0]
    );
}

#[test]
fn network_info_reads_three_addresses() {
    let values = vec![
        ReplyValue::Bytes(vec![10, 0, 0, 2]),
        ReplyValue::Bytes(vec![255, 255, 255, 0]),
        ReplyValue::Bytes(vec![10, 0, 0, 1]),
    ];
    let info = network_info_from_reply(&values);
    assert_eq!(info.ip, [10, 0, 0, 2]);
    assert_eq!(info.netmask, [255, 255, 255, 0]);
    assert_eq!(info.gateway_ip, [10, 0, 0, 1]);
    assert_eq!(address_at(&values, 5), [0, 0, 0, 0]);
}

#[test]
fn tcp_session_to_literal_address() {
    let socket = Socket::new(0);

    let ex = socket_open_exchange(&socket, Protocol::TCP, &Destination::Ip([192, 0, 2, 1]), 80);
    let frame = encode_request(ex.command, &ex.send);
    assert_eq!(frame, vec![0xE0, 0x2D, 4, 4, 192, 0, 2, 1, 2, 0, 80, 1, 0, 1, 0, 0xEE]);
    let values = done(decode_response(ex.command, &ex.recv, &vec![0xAD, 1, 1, 1]));
    assert!(open_accepted::<()>(&values).is_ok());

    let mut poll = open_poller();
    let synsent = status_from_reply(&done(decode_response(
        wifi_nina::commands::NinaCommand::GetClientStateTcp,
        &wifi_nina::commands::socket::socket_status_exchange(&socket).recv,
        &vec![0xAF, 1, 1, 2],
    )));
    assert_eq!(synsent, SocketStatus::SynSent);
    assert_eq!(open_step(&mut poll, synsent), OpenStep::PauseThenPoll);
    assert_eq!(open_step(&mut poll, SocketStatus::from(4)), OpenStep::Established);

    let ex = socket_write_exchange(&socket, b"GET / HTTP/1.0\r\n\r\n".to_vec());
    let values = done(decode_response(ex.command, &ex.recv, &vec![0xC4, 1, 2, 18, 0]));
    assert_eq!(count_from_reply(&values), 18);

    let ex = available_exchange(&socket);
    let values = done(decode_response(ex.command, &ex.recv, &vec![0xAB, 1, 2, 5, 0]));
    let available = count_from_reply(&values) as u16;
    assert_eq!(read_plan(available, 64), ReadPlan::Fetch(5));
    let ex = fetch_exchange(&socket, 5, 64);
    let values = done(decode_response(ex.command, &ex.recv, &vec![0xC5, 1, 0, 5, b'H', b'T', b'T', b'P', b'/']));
    assert_eq!(fetched_bytes(&values), b"HTTP/");

    let ex = available_exchange(&socket);
    let values = done(decode_response(ex.command, &ex.recv, &vec![0xAB, 1, 2, 0, 0]));
    assert_eq!(read_plan(count_from_reply(&values) as u16, 64), ReadPlan::CheckStatus);
    assert_eq!(read_when_empty(SocketStatus::from(0)), ReadOutcome::Read(0));
}

//! Station and access-point control.
use vstd::prelude::*;
use vstd::string::StringSliceAdditionalSpecFns;

use crate::commands::{narrow_exchange, payloads, 
    byte_at, models, reply_byte, str_bytes, Exchange, NinaCommand, Params, RecvParam, ReplyValue, SendParam,
};
use crate::poll::{PollStep, Poller};

verus! {

/// Status polls allowed while joining a network.
pub const JOIN_POLLS: u32 = 5;

/// Pause between two status polls while joining, in milliseconds.
pub const JOIN_POLL_PAUSE_MS: u16 = 1000;

/// The co-processor's Wi-Fi state.
#[derive(Debug, PartialEq, Eq, Structural, Clone, Copy)]
pub enum WifiStatus {
    Idle,
    NoSsidAvailable,
    ScanCompleted,
    Connected,
    ConnectFailed,
    ConnectionLost,
    Disconnected,
    ApListening,
    ApConnected,
    ApFailed,
    UnknownStatus,
}

/// The status a status byte stands for; any byte past the table is unknown.
pub open spec fn wifi_status_of(s: u8) -> WifiStatus {
    match s {
        0 => WifiStatus::Idle,
        1 => WifiStatus::NoSsidAvailable,
        2 => WifiStatus::ScanCompleted,
        3 => WifiStatus::Connected,
        4 => WifiStatus::ConnectFailed,
        5 => WifiStatus::ConnectionLost,
        6 => WifiStatus::Disconnected,
        7 => WifiStatus::ApListening,
        8 => WifiStatus::ApConnected,
        9 => WifiStatus::ApFailed,
        _ => WifiStatus::UnknownStatus,
    }
}

/// Every byte past the table reads as an unknown status; none is an error.
pub proof fn lemma_unknown_wifi_status_bytes(s: u8)
    ensures
        s > 9 ==> wifi_status_of(s) == WifiStatus::UnknownStatus,
        s <= 9 ==> wifi_status_of(s) != WifiStatus::UnknownStatus,
{
}

impl From<u8> for WifiStatus {
    fn from(s: u8) -> (r: Self) {
        match s {
            0 => WifiStatus::Idle,
            1 => WifiStatus::NoSsidAvailable,
            2 => WifiStatus::ScanCompleted,
            3 => WifiStatus::Connected,
            4 => WifiStatus::ConnectFailed,
            5 => WifiStatus::ConnectionLost,
            6 => WifiStatus::Disconnected,
            7 => WifiStatus::ApListening,
            8 => WifiStatus::ApConnected,
            9 => WifiStatus::ApFailed,
            _ => WifiStatus::UnknownStatus,
        }
    }
}

impl vstd::std_specs::convert::FromSpecImpl<u8> for WifiStatus {
    open spec fn obeys_from_spec() -> bool {
        true
    }

    open spec fn from_spec(s: u8) -> WifiStatus {
        wifi_status_of(s)
    }
}

/// Asks for the Wi-Fi status.
pub fn wifi_status_exchange() -> (r: Exchange)
    ensures
        narrow_exchange(r, NinaCommand::GetConnectionStatus),
        r.send.items().len() == 0,
        r.recv.items() == seq![RecvParam::Byte],
{
    Exchange {
        command: NinaCommand::GetConnectionStatus,
        send: Params::none(),
        recv: Params::of(vec![RecvParam::Byte]),
    }
}

/// The status in the reply to `wifi_status_exchange`; a reply without a
/// byte reads as an unknown status.
pub fn wifi_status_from_reply(values: &Vec<ReplyValue>) -> (r: WifiStatus)
    ensures
        r == wifi_status_of(reply_byte(models(values@), 0, 255)),
{
    WifiStatus::from(byte_at(values, 0, 255))
}

/// Sets the host name the co-processor announces.
pub fn set_hostname_exchange(hostname: &str) -> (r: Exchange)
    ensures
        narrow_exchange(r, NinaCommand::SetHostname),
        payloads(r.send.items()) == seq![hostname.spec_bytes()],
        r.recv.items() == seq![RecvParam::Ack],
{
    let r = Exchange {
        command: NinaCommand::SetHostname,
        send: Params::of(vec![SendParam::Bytes(str_bytes(hostname))]),
        recv: Params::of(vec![RecvParam::Ack]),
    };
    assert(payloads(r.send.items()) =~= seq![hostname.spec_bytes()]);
    r
}

/// Joins network `ssid`, open or with a passphrase.
pub fn wifi_connect_exchange(ssid: &str, password: Option<&str>) -> (r: Exchange)
    ensures
        narrow_exchange(r, match password {
            None => NinaCommand::SetNetwork,
            Some(_) => NinaCommand::SetNetworkAndPassphrase,
        }),
        payloads(r.send.items()) == (match password {
            None => seq![ssid.spec_bytes()],
            Some(p) => seq![ssid.spec_bytes(), p.spec_bytes()],
        }),
        r.recv.items() == seq![RecvParam::Ack],
{
    let r = match password {
        None => Exchange {
            command: NinaCommand::SetNetwork,
            send: Params::of(vec![SendParam::Bytes(str_bytes(ssid))]),
            recv: Params::of(vec![RecvParam::Ack]),
        },
        Some(p) => Exchange {
            command: NinaCommand::SetNetworkAndPassphrase,
            send: Params::of(vec![SendParam::Bytes(str_bytes(ssid)), SendParam::Bytes(str_bytes(p))]),
            recv: Params::of(vec![RecvParam::Ack]),
        },
    };
    assert(payloads(r.send.items()) =~= (match password {
        None => seq![ssid.spec_bytes()],
        Some(p) => seq![ssid.spec_bytes(), p.spec_bytes()],
    }));
    r
}

/// What to do after one status poll while joining a network.
#[derive(Debug, Copy, Clone, PartialEq, Eq, Structural)]
pub enum JoinStep {
    Connected,
    PauseThenPoll,
    /// Pause, then fail with this last status seen.
    PauseThenFail(WifiStatus),
}

/// The poll and the step after seeing `status` while joining.
pub open spec fn join_step_spec(p: Poller, status: WifiStatus) -> (Poller, JoinStep) {
    let (q, step) = p.next(status == WifiStatus::Connected);
    (q, match step {
        PollStep::Done => JoinStep::Connected,
        PollStep::Retry => JoinStep::PauseThenPoll,
        PollStep::Exhausted => JoinStep::PauseThenFail(status),
    })
}

/// The budget of status polls for joining a network.
pub fn join_poller() -> (r: Poller)
    ensures
        r == (Poller { misses: 0, limit: JOIN_POLLS }),
        r.can_retry(),
{
    Poller::new(JOIN_POLLS)
}

/// Takes in one status poll while joining.
pub fn join_step(poll: &mut Poller, status: WifiStatus) -> (r: JoinStep)
    requires
        old(poll).can_retry(),
    ensures
        (*final(poll), r) == join_step_spec(*old(poll), status),
        r == JoinStep::PauseThenPoll ==> final(poll).can_retry(),
{
    match poll.observe(status == WifiStatus::Connected) {
        PollStep::Done => JoinStep::Connected,
        PollStep::Retry => JoinStep::PauseThenPoll,
        PollStep::Exhausted => JoinStep::PauseThenFail(status),
    }
}

/// Opens an access point named `name` on `channel`.
pub fn create_ap_exchange(name: &str, channel: u8) -> (r: Exchange)
    ensures
        narrow_exchange(r, NinaCommand::SetApNetwork),
        payloads(r.send.items()) == seq![name.spec_bytes(), seq![channel]],
        r.recv.items() == seq![RecvParam::Ack],
{
    let r = Exchange {
        command: NinaCommand::SetApNetwork,
        send: Params::of(vec![SendParam::Bytes(str_bytes(name)), SendParam::Byte(channel)]),
        recv: Params::of(vec![RecvParam::Ack]),
    };
    assert(payloads(r.send.items()) =~= seq![name.spec_bytes(), seq![channel]]);
    r
}

/// Turns the co-processor's debug output on or off.
pub fn set_debug_exchange(enabled: bool) -> (r: Exchange)
    ensures
        narrow_exchange(r, NinaCommand::SetDebug),
        r.send.items() == seq![SendParam::Byte(if enabled { 1u8 } else { 0u8 })],
        r.recv.items() == seq![RecvParam::Ack],
{
    let flag: u8 = if enabled { 1 } else { 0 };
    Exchange {
        command: NinaCommand::SetDebug,
        send: Params::of(vec![SendParam::Byte(flag)]),
        recv: Params::of(vec![RecvParam::Ack]),
    }
}

} // verus!

//! Socket handles and their lifecycle: allocation, connection, status, data
//! transfer and close.
use vstd::prelude::*;
use vstd::string::{StringExecFns, StringSliceAdditionalSpecFns};

use numtoa::NumToA;

use crate::commands::{
    be_bytes, byte_at, models, narrow_exchange, payloads, str_bytes, reply_byte, reply_word, word_at, Exchange, NinaCommand,
    Params, RecvParam, ReplyValue, SendParam,
};
use crate::poll::{PollStep, Poller};
use crate::Error;

verus! {

/// The socket number the co-processor hands out when it has none left.
pub const INVALID_SOCKET: u8 = 255;

/// Polls of the socket status allowed while a connection is being made.
pub const CONNECT_POLLS: u32 = 300;

/// Pause between two polls of the socket status, in milliseconds.
pub const CONNECT_POLL_PAUSE_MS: u16 = 10;

/// A socket number that has not been checked against the invalid sentinel.
pub struct InvalidSocket {
    num: u8,
}

impl InvalidSocket {
    pub closed spec fn spec_num(&self) -> u8 {
        self.num
    }

    /// The unchecked socket holding `num`.
    pub closed spec fn with_num(num: u8) -> InvalidSocket {
        InvalidSocket { num }
    }

    /// The invalid sentinel itself.
    pub fn new() -> (r: Self)
        ensures
            r.spec_num() == INVALID_SOCKET,
    {
        InvalidSocket { num: INVALID_SOCKET }
    }

    /// Where a reply's socket number is written.
    pub fn num_mut(&mut self) -> (r: &mut u8)
        ensures
            *r == old(self).spec_num(),
            final(self).spec_num() == *final(r),
    {
        &mut self.num
    }

    /// Whether a socket number denotes a usable socket.
    pub fn valid(num: u8) -> (r: bool)
        ensures
            r == (num != INVALID_SOCKET),
    {
        num != INVALID_SOCKET
    }

    /// A usable socket, or nothing when the number is the invalid sentinel.
    pub fn try_into_socket(self) -> (r: Result<Socket, ()>)
        ensures
            r is Ok <==> self.spec_num() != INVALID_SOCKET,
            r is Ok ==> r->Ok_0.spec_num() == self.spec_num(),
    {
        if Self::valid(self.num) {
            Ok(Socket::new(self.num))
        } else {
            Err(())
        }
    }
}

impl From<u8> for InvalidSocket {
    fn from(num: u8) -> (r: Self) {
        InvalidSocket { num }
    }
}

impl vstd::std_specs::convert::FromSpecImpl<u8> for InvalidSocket {
    open spec fn obeys_from_spec() -> bool {
        true
    }

    open spec fn from_spec(num: u8) -> InvalidSocket {
        InvalidSocket::with_num(num)
    }
}

/// A socket number handed out by the co-processor.
#[derive(Debug)]
pub struct Socket {
    num: u8,
}

impl Socket {
    pub closed spec fn spec_num(&self) -> u8 {
        self.num
    }

    pub fn new(num: u8) -> (r: Self)
        ensures
            r.spec_num() == num,
    {
        Socket { num }
    }

    pub fn num(&self) -> (r: u8)
        ensures
            r == self.spec_num(),
    {
        self.num
    }
}

#[derive(Debug, Copy, Clone, PartialEq, Eq, Structural)]
pub enum Protocol {
    TCP,
    UDP,
    TLS,
}

impl Protocol {
    pub open spec fn spec_byte(self) -> u8 {
        match self {
            Protocol::TCP => 0,
            Protocol::UDP => 1,
            Protocol::TLS => 2,
        }
    }

    /// The protocol's code on the wire.
    pub fn byte(self) -> (r: u8)
        ensures
            r == self.spec_byte(),
    {
        match self {
            Protocol::TCP => 0,
            Protocol::UDP => 1,
            Protocol::TLS => 2,
        }
    }
}

/// Where a client socket connects to.
pub enum Destination<'a> {
    Ip([u8; 4]),
    Hostname(&'a str),
}

/// The decimal digits of a byte, without leading zeros.
pub open spec fn decimal(n: u8) -> Seq<char> {
    let d = |k: u8| (('0' as u8) + k) as char;
    if n < 10 {
        seq![d(n)]
    } else if n < 100 {
        seq![d(n / 10), d(n % 10)]
    } else {
        seq![d(n / 100), d((n / 10) % 10), d(n % 10)]
    }
}

/// Relies on numtoa's `NumToA::<u8>::numtoa_str` in base 10: the decimal
/// digits of the byte, written at the end of a buffer of at least three bytes.
#[verifier::external_body]
fn decimal_text(n: u8) -> (r: String)
    ensures
        r@ == decimal(n),
{
    let mut buf = [0u8; 3];
    String::from(n.numtoa_str(10, &mut buf))
}

/// The first `n` bytes of an address, each followed by a dot.
pub open spec fn dotted(a: Seq<u8>, n: nat) -> Seq<char>
    decreases n,
{
    if n == 0 || n > a.len() {
        seq![]
    } else {
        dotted(a, (n - 1) as nat) + decimal(a[n - 1]) + seq!['.']
    }
}

impl<'a> Destination<'a> {
    /// How the destination reads: each byte of an address followed by a
    /// dot (the last one too), or the host name as it is.
    pub open spec fn spec_text(&self) -> Seq<char> {
        match self {
            Destination::Ip(a) => decimal(a[0]) + seq!['.'] + decimal(a[1]) + seq!['.'] + decimal(a[2])
                + seq!['.'] + decimal(a[3]) + seq!['.'],
            Destination::Hostname(h) => h@,
        }
    }

    pub fn to_text(&self) -> (r: String)
        ensures
            r@ == self.spec_text(),
    {
        match self {
            Destination::Ip(a) => {
                let mut out = String::new();
                let mut i: usize = 0;
                proof {
                    reveal_strlit(".");
                }
                while i < 4
                    invariant
                        i <= 4,
                        out@ == dotted(a@, i as nat),
                    decreases 4 - i,
                {
                    let part = decimal_text(a[i]);
                    out.append(part.as_str());
                    out.append(".");
                    proof {
                        reveal_strlit(".");
                        assert(out@ =~= dotted(a@, i as nat + 1));
                    }
                    i = i + 1;
                }
                proof {
                    reveal_with_fuel(dotted, 5);
                    assert(out@ =~= self.spec_text());
                }
                out
            },
            Destination::Hostname(h) => (*h).to_owned(),
        }
    }
}

/// The state of a socket's connection, as the co-processor reports it.
#[derive(Debug, PartialEq, Eq, Structural, Clone, Copy)]
pub enum SocketStatus {
    Closed,
    Listen,
    SynSent,
    SynReceived,
    Established,
    FinWait1,
    FinWait2,
    CloseWait,
    Closing,
    LastAck,
    TimeWait,
    UnknownStatus,
}

/// The status that a status byte stands for; any byte past the table is
/// an unknown status, never an error.
pub open spec fn status_of(s: u8) -> SocketStatus {
    match s {
        0 => SocketStatus::Closed,
        1 => SocketStatus::Listen,
        2 => SocketStatus::SynSent,
        3 => SocketStatus::SynReceived,
        4 => SocketStatus::Established,
        5 => SocketStatus::FinWait1,
        6 => SocketStatus::FinWait2,
        7 => SocketStatus::CloseWait,
        8 => SocketStatus::Closing,
        9 => SocketStatus::LastAck,
        10 => SocketStatus::TimeWait,
        _ => SocketStatus::UnknownStatus,
    }
}

/// Every byte past the table reads as an unknown status; none is an error.
pub proof fn lemma_unknown_status_bytes(s: u8)
    ensures
        s > 10 ==> status_of(s) == SocketStatus::UnknownStatus,
        s <= 10 ==> status_of(s) != SocketStatus::UnknownStatus,
{
}

impl From<u8> for SocketStatus {
    fn from(s: u8) -> (r: Self) {
        match s {
            0 => SocketStatus::Closed,
            1 => SocketStatus::Listen,
            2 => SocketStatus::SynSent,
            3 => SocketStatus::SynReceived,
            4 => SocketStatus::Established,
            5 => SocketStatus::FinWait1,
            6 => SocketStatus::FinWait2,
            7 => SocketStatus::CloseWait,
            8 => SocketStatus::Closing,
            9 => SocketStatus::LastAck,
            10 => SocketStatus::TimeWait,
            _ => SocketStatus::UnknownStatus,
        }
    }
}

impl vstd::std_specs::convert::FromSpecImpl<u8> for SocketStatus {
    open spec fn obeys_from_spec() -> bool {
        true
    }

    open spec fn from_spec(s: u8) -> SocketStatus {
        status_of(s)
    }
}

/// Asks the co-processor for a free socket.
pub fn socket_new_exchange() -> (r: Exchange)
    ensures
        narrow_exchange(r, NinaCommand::GetSocket),
        r.send.items().len() == 0,
        r.recv.items() == seq![RecvParam::Socket],
{
    let recv = vec![RecvParam::Socket];
    Exchange { command: NinaCommand::GetSocket, send: Params::none(), recv: Params::of(recv) }
}

/// The socket in the reply to `socket_new_exchange`, if it is not the
/// invalid sentinel. A reply without a number reads as the sentinel.
pub fn socket_from_reply<E>(values: &Vec<ReplyValue>) -> (r: Result<Socket, Error<E>>)
    ensures
        ({
            let raw = reply_byte(models(values@), 0, INVALID_SOCKET);
            &&& r is Ok <==> raw != INVALID_SOCKET
            &&& r is Ok ==> r->Ok_0.spec_num() == raw
            &&& r is Err ==> r->Err_0 == Error::<E>::NoSocketAvailable
        }),
{
    let raw = byte_at(values, 0, INVALID_SOCKET);
    match InvalidSocket::from(raw).try_into_socket() {
        Ok(s) => Ok(s),
        Err(()) => Err(Error::NoSocketAvailable),
    }
}

/// Asks for the status of `socket`.
pub fn socket_status_exchange(socket: &Socket) -> (r: Exchange)
    ensures
        narrow_exchange(r, NinaCommand::GetClientStateTcp),
        r.send.items() == seq![SendParam::Byte(socket.spec_num())],
        r.recv.items() == seq![RecvParam::Byte],
{
    Exchange {
        command: NinaCommand::GetClientStateTcp,
        send: Params::of(vec![SendParam::Byte(socket.num())]),
        recv: Params::of(vec![RecvParam::Byte]),
    }
}

/// The status in the reply to `socket_status_exchange`; a reply without a
/// byte reads as an unknown status.
pub fn status_from_reply(values: &Vec<ReplyValue>) -> (r: SocketStatus)
    ensures
        r == status_of(reply_byte(models(values@), 0, 255)),
{
    SocketStatus::from(byte_at(values, 0, 255))
}

/// Starts a client connection from `socket` to `destination`. An address
/// goes as its four bytes; a host name goes as its bytes followed by an
/// all-zero address, for the co-processor to resolve.
pub fn socket_open_exchange(socket: &Socket, protocol: Protocol, destination: &Destination, port: u16) -> (r: Exchange)
    ensures
        narrow_exchange(r, NinaCommand::StartClientTcp),
        r.recv.items() == seq![RecvParam::OptionalByte],
        payloads(r.send.items()) == (match destination {
            Destination::Ip(a) => seq![a@, be_bytes(port), seq![socket.spec_num()], seq![protocol.spec_byte()]],
            Destination::Hostname(h) => seq![h.spec_bytes(), seq![0u8, 0u8, 0u8, 0u8], be_bytes(port),
                seq![socket.spec_num()], seq![protocol.spec_byte()]],
        }),
{
    let mut send: Vec<SendParam> = Vec::new();
    match destination {
        Destination::Ip(a) => {
            let mut ip: Vec<u8> = Vec::new();
            ip.push(a[0]);
            ip.push(a[1]);
            ip.push(a[2]);
            ip.push(a[3]);
            assert(ip@ =~= a@);
            send.push(SendParam::Bytes(ip));
        },
        Destination::Hostname(h) => {
            send.push(SendParam::Bytes(str_bytes(h)));
            send.push(SendParam::Bytes(vec![0u8, 0u8, 0u8, 0u8]));
        },
    }
    send.push(SendParam::Word(port));
    send.push(SendParam::Byte(socket.num()));
    send.push(SendParam::Byte(protocol.byte()));
    let r = Exchange {
        command: NinaCommand::StartClientTcp,
        send: Params::of(send),
        recv: Params::of(vec![RecvParam::OptionalByte]),
    };
    assert(payloads(r.send.items()) =~= (match destination {
        Destination::Ip(a) => seq![a@, be_bytes(port), seq![socket.spec_num()], seq![protocol.spec_byte()]],
        Destination::Hostname(h) => seq![h.spec_bytes(), seq![0u8, 0u8, 0u8, 0u8], be_bytes(port),
            seq![socket.spec_num()], seq![protocol.spec_byte()]],
    }));
    r
}

/// Whether the co-processor took a connection request: it answers with a
/// byte, or leaves the optional byte out when it refuses.
pub fn open_accepted<E>(values: &Vec<ReplyValue>) -> (r: Result<(), Error<E>>)
    ensures
        r is Ok <==> (values@.len() > 0 && models(values@)[0] is OptionalByte
            && models(values@)[0]->OptionalByte_0 is Some),
        r is Err ==> r->Err_0 == Error::<E>::SocketConnectionFailed(SocketStatus::UnknownStatus),
{
    if values.len() > 0 {
        match &values[0] {
            ReplyValue::OptionalByte(Some(_)) => {
                return Ok(());
            },
            _ => {},
        }
    }
    Err(Error::SocketConnectionFailed(SocketStatus::UnknownStatus))
}

/// What to do after one status poll while a connection is being made.
#[derive(Debug, Copy, Clone, PartialEq, Eq, Structural)]
pub enum OpenStep {
    Established,
    PauseThenPoll,
    /// Pause, then fail with this last status seen.
    PauseThenFail(SocketStatus),
}

/// The poll and the step after seeing `status`.
pub open spec fn open_step_spec(p: Poller, status: SocketStatus) -> (Poller, OpenStep) {
    let (q, step) = p.next(status == SocketStatus::Established);
    (q, match step {
        PollStep::Done => OpenStep::Established,
        PollStep::Retry => OpenStep::PauseThenPoll,
        PollStep::Exhausted => OpenStep::PauseThenFail(status),
    })
}

/// The budget of status polls for one connection.
pub fn open_poller() -> (r: Poller)
    ensures
        r == (Poller { misses: 0, limit: CONNECT_POLLS }),
        r.can_retry(),
{
    Poller::new(CONNECT_POLLS)
}

/// Takes in one status poll of a connection being made.
pub fn open_step(poll: &mut Poller, status: SocketStatus) -> (r: OpenStep)
    requires
        old(poll).can_retry(),
    ensures
        (*final(poll), r) == open_step_spec(*old(poll), status),
        r == OpenStep::PauseThenPoll ==> final(poll).can_retry(),
{
    match poll.observe(status == SocketStatus::Established) {
        PollStep::Done => OpenStep::Established,
        PollStep::Retry => OpenStep::PauseThenPoll,
        PollStep::Exhausted => OpenStep::PauseThenFail(status),
    }
}

/// The poll and the last step after a run of status polls.
pub open spec fn run_open(p: Poller, statuses: Seq<SocketStatus>) -> (Poller, OpenStep)
    decreases statuses.len(),
{
    if statuses.len() <= 1 {
        open_step_spec(p, if statuses.len() == 1 { statuses[0] } else { SocketStatus::UnknownStatus })
    } else {
        run_open(open_step_spec(p, statuses[0]).0, statuses.drop_first())
    }
}

/// Opening a socket fails, with the last status seen, after exactly 300
/// status polls none of which is `Established`; after fewer it polls again.
pub proof fn lemma_open_gives_up_after_exactly_limit(statuses: Seq<SocketStatus>)
    requires
        1 <= statuses.len() <= CONNECT_POLLS,
        forall|i: int| 0 <= i < statuses.len() ==> statuses[i] != SocketStatus::Established,
    ensures
        run_open(Poller { misses: 0, limit: CONNECT_POLLS }, statuses).1 == (if statuses.len() == CONNECT_POLLS {
            OpenStep::PauseThenFail(statuses.last())
        } else {
            OpenStep::PauseThenPoll
        }),
{
    lemma_open_misses(Poller { misses: 0, limit: CONNECT_POLLS }, statuses);
}

proof fn lemma_open_misses(p: Poller, statuses: Seq<SocketStatus>)
    requires
        1 <= statuses.len(),
        p.misses + statuses.len() <= p.limit,
        forall|i: int| 0 <= i < statuses.len() ==> statuses[i] != SocketStatus::Established,
    ensures
        run_open(p, statuses).0.misses == p.misses + statuses.len(),
        run_open(p, statuses).1 == (if p.misses + statuses.len() == p.limit {
            OpenStep::PauseThenFail(statuses.last())
        } else {
            OpenStep::PauseThenPoll
        }),
    decreases statuses.len(),
{
    if statuses.len() > 1 {
        let rest = statuses.drop_first();
        assert(rest.last() == statuses.last());
        lemma_open_misses(open_step_spec(p, statuses[0]).0, rest);
    }
}

/// Stops the connection of `socket`.
pub fn socket_close_exchange(socket: &Socket) -> (r: Exchange)
    ensures
        narrow_exchange(r, NinaCommand::StopClientTcp),
        r.send.items() == seq![SendParam::Byte(socket.spec_num())],
        r.recv.items() == seq![RecvParam::Ack],
{
    Exchange {
        command: NinaCommand::StopClientTcp,
        send: Params::of(vec![SendParam::Byte(socket.num())]),
        recv: Params::of(vec![RecvParam::Ack]),
    }
}

/// Starts a server listening on `port` with `socket`.
pub fn server_exchange(socket: &Socket, protocol: Protocol, port: u16) -> (r: Exchange)
    ensures
        narrow_exchange(r, NinaCommand::StartServerTcp),
        r.send.items() == seq![SendParam::Word(port), SendParam::Byte(socket.spec_num()),
            SendParam::Byte(protocol.spec_byte())],
        r.recv.items() == seq![RecvParam::OptionalByte],
{
    Exchange {
        command: NinaCommand::StartServerTcp,
        send: Params::of(vec![SendParam::Word(port), SendParam::Byte(socket.num()), SendParam::Byte(protocol.byte())]),
        recv: Params::of(vec![RecvParam::OptionalByte]),
    }
}

/// Asks how much data `socket` holds; on a server socket, which client is
/// waiting. The answer comes little-endian.
pub fn available_exchange(socket: &Socket) -> (r: Exchange)
    ensures
        narrow_exchange(r, NinaCommand::AvailableDataTcp),
        r.send.items() == seq![SendParam::Byte(socket.spec_num())],
        r.recv.items() == seq![RecvParam::LEWord],
{
    Exchange {
        command: NinaCommand::AvailableDataTcp,
        send: Params::of(vec![SendParam::Byte(socket.num())]),
        recv: Params::of(vec![RecvParam::LEWord]),
    }
}

/// The waiting client in the reply to `available_exchange` on a server
/// socket: the low byte of the word, unless it is the invalid sentinel.
pub fn client_from_reply<E>(values: &Vec<ReplyValue>) -> (r: Result<Socket, Error<E>>)
    ensures
        ({
            let raw = reply_word(models(values@), 0, 0) as u8;
            &&& r is Ok <==> raw != INVALID_SOCKET
            &&& r is Ok ==> r->Ok_0.spec_num() == raw
            &&& r is Err ==> r->Err_0 == Error::<E>::NoSocketAvailable
        }),
{
    let raw = word_at(values, 0, 0) as u8;
    if InvalidSocket::valid(raw) {
        Ok(Socket::new(raw))
    } else {
        Err(Error::NoSocketAvailable)
    }
}

/// Sends `bytes` on `socket`, with two-byte length prefixes. The count of
/// bytes taken comes back little-endian.
pub fn socket_write_exchange(socket: &Socket, bytes: Vec<u8>) -> (r: Exchange)
    ensures
        r.command == NinaCommand::SendDataTcp,
        r.send.wide(),
        !r.recv.wide(),
        payloads(r.send.items()) == seq![seq![socket.spec_num()], bytes@],
        r.recv.items() == seq![RecvParam::LEWord],
{
    let ghost b = bytes@;
    let r = Exchange {
        command: NinaCommand::SendDataTcp,
        send: Params::with_16_bit_length(vec![SendParam::Byte(socket.num()), SendParam::Bytes(bytes)]),
        recv: Params::of(vec![RecvParam::LEWord]),
    };
    assert(payloads(r.send.items()) =~= seq![seq![socket.spec_num()], b]);
    r
}

/// The count in a word reply, such as the bytes taken by a write or the
/// bytes waiting to be read; 0 where the reply holds no word.
pub fn count_from_reply(values: &Vec<ReplyValue>) -> (r: usize)
    ensures
        r == reply_word(models(values@), 0, 0) as usize,
{
    word_at(values, 0, 0) as usize
}

/// The first step of a read, once the available byte count is known.
#[derive(Debug, Copy, Clone, PartialEq, Eq, Structural)]
pub enum ReadPlan {
    /// Nothing waits: ask the socket's status.
    CheckStatus,
    /// Fetch this many bytes.
    Fetch(u16),
}

/// A read with `available` bytes waiting and room for `capacity`.
pub fn read_plan(available: u16, capacity: usize) -> (r: ReadPlan)
    ensures
        available == 0 ==> r == ReadPlan::CheckStatus,
        available != 0 ==> r == ReadPlan::Fetch(
            if (available as int) < capacity as int { available } else { capacity as u16 },
        ),
{
    if available == 0 {
        ReadPlan::CheckStatus
    } else if (available as usize) < capacity {
        ReadPlan::Fetch(available)
    } else {
        ReadPlan::Fetch(capacity as u16)
    }
}

/// How a read that found nothing waiting ends.
#[derive(Debug, Copy, Clone, PartialEq, Eq, Structural)]
pub enum ReadOutcome {
    /// This many bytes were read; 0 means the peer has closed.
    Read(usize),
    /// Nothing yet; try again later.
    WouldBlock,
}

/// A read that found nothing waiting: end of stream on a closed socket,
/// otherwise not yet.
pub fn read_when_empty(status: SocketStatus) -> (r: ReadOutcome)
    ensures
        r == (if status == SocketStatus::Closed { ReadOutcome::Read(0) } else { ReadOutcome::WouldBlock }),
{
    if status == SocketStatus::Closed {
        ReadOutcome::Read(0)
    } else {
        ReadOutcome::WouldBlock
    }
}

/// Fetches up to `len` bytes from `socket` into room for `capacity`, with
/// two-byte length prefixes both ways.
pub fn fetch_exchange(socket: &Socket, len: u16, capacity: usize) -> (r: Exchange)
    ensures
        r.command == NinaCommand::GetDatabufTcp,
        r.send.wide(),
        r.recv.wide(),
        r.send.items() == seq![SendParam::Byte(socket.spec_num()), SendParam::LEWord(len)],
        r.recv.items() == seq![RecvParam::Buffer(capacity)],
{
    Exchange {
        command: NinaCommand::GetDatabufTcp,
        send: Params::with_16_bit_length(vec![SendParam::Byte(socket.num()), SendParam::LEWord(len)]),
        recv: Params::with_16_bit_length(vec![RecvParam::Buffer(capacity)]),
    }
}

/// The bytes in the reply to `fetch_exchange`; none where it holds none.
pub fn fetched_bytes(values: &Vec<ReplyValue>) -> (r: &[u8])
    ensures
        r@ == (if values@.len() > 0 && models(values@)[0] is Bytes { models(values@)[0]->Bytes_0 } else { seq![] }),
{
    if values.len() > 0 {
        match &values[0] {
            ReplyValue::Bytes(v) => {
                return v.as_slice();
            },
            _ => {},
        }
    }
    &[]
}

} // verus!

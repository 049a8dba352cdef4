//! The opcode table and the parameter codec: how a request frame is laid out
//! on the wire and how a reply frame is read back into values.
use vstd::prelude::*;

use vstd::string::StringSliceAdditionalSpecFns;

use crate::poll::{PollStep, Poller};
use crate::Error;

pub mod network;
pub mod socket;
pub mod wifi;

verus! {

/// First byte of every frame.
pub const START_BYTE: u8 = 0xE0;

/// Last byte of a request frame, before the padding.
pub const END_BYTE: u8 = 0xEE;

/// Sent by the co-processor in place of a reply it cannot give.
pub const ERROR_BYTE: u8 = 0xEF;

/// Set in the opcode of a reply; clear in the opcode of a request.
pub const REPLY_FLAG: u8 = 0x80;

/// The payload of an acknowledgement.
pub const ACK_BYTE: u8 = 1;

/// The requests the co-processor understands.
#[derive(Debug, Copy, Clone, PartialEq, Eq, Structural)]
pub enum NinaCommand {
    SetNetwork,
    SetNetworkAndPassphrase,
    SetKey,
    SetIpConfig,
    SetDnsConfig,
    SetHostname,
    SetPowerMode,
    SetApNetwork,
    SetApPassphrase,
    SetDebug,
    GetConnectionStatus,
    GetIpAddress,
    GetMacAddress,
    GetCurrentSsid,
    GetCurrentRssi,
    GetCurrentEnct,
    ScanNetworks,
    StartServerTcp,
    GetSocket,
    GetStateTcp,
    DataSentTcp,
    AvailableDataTcp,
    GetDataTcp,
    StartClientTcp,
    StopClientTcp,
    GetClientStateTcp,
    Disconnect,
    GetIdxRssi,
    GetIdxEnct,
    RequestHostByName,
    GetHostByName,
    StartScanNetworks,
    GetFirmwareVersion,
    Ping,
    SendDataTcp,
    GetDatabufTcp,
    SetEnterpriseIdent,
    SetEnterpriseUsername,
    SetEnterprisePassword,
    SetEnterpriseEnable,
    SetPinMode,
    SetDigitalWrite,
    SetAnalogWrite,
    Start,
    End,
    Error,
}

impl NinaCommand {
    /// The opcode byte of each command, fixed by the co-processor's firmware.
    pub open spec fn spec_byte(self) -> u8 {
        match self {
            NinaCommand::SetNetwork => 0x10,
            NinaCommand::SetNetworkAndPassphrase => 0x11,
            NinaCommand::SetKey => 0x12,
            NinaCommand::SetIpConfig => 0x14,
            NinaCommand::SetDnsConfig => 0x15,
            NinaCommand::SetHostname => 0x16,
            NinaCommand::SetPowerMode => 0x17,
            NinaCommand::SetApNetwork => 0x18,
            NinaCommand::SetApPassphrase => 0x19,
            NinaCommand::SetDebug => 0x1A,
            NinaCommand::GetConnectionStatus => 0x20,
            NinaCommand::GetIpAddress => 0x21,
            NinaCommand::GetMacAddress => 0x22,
            NinaCommand::GetCurrentSsid => 0x23,
            NinaCommand::GetCurrentRssi => 0x25,
            NinaCommand::GetCurrentEnct => 0x26,
            NinaCommand::ScanNetworks => 0x27,
            NinaCommand::StartServerTcp => 0x28,
            NinaCommand::GetSocket => 0x3F,
            NinaCommand::GetStateTcp => 0x29,
            NinaCommand::DataSentTcp => 0x2A,
            NinaCommand::AvailableDataTcp => 0x2B,
            NinaCommand::GetDataTcp => 0x2C,
            NinaCommand::StartClientTcp => 0x2D,
            NinaCommand::StopClientTcp => 0x2E,
            NinaCommand::GetClientStateTcp => 0x2F,
            NinaCommand::Disconnect => 0x30,
            NinaCommand::GetIdxRssi => 0x32,
            NinaCommand::GetIdxEnct => 0x33,
            NinaCommand::RequestHostByName => 0x34,
            NinaCommand::GetHostByName => 0x35,
            NinaCommand::StartScanNetworks => 0x36,
            NinaCommand::GetFirmwareVersion => 0x37,
            NinaCommand::Ping => 0x3E,
            NinaCommand::SendDataTcp => 0x44,
            NinaCommand::GetDatabufTcp => 0x45,
            NinaCommand::SetEnterpriseIdent => 0x4A,
            NinaCommand::SetEnterpriseUsername => 0x4B,
            NinaCommand::SetEnterprisePassword => 0x4C,
            NinaCommand::SetEnterpriseEnable => 0x4F,
            NinaCommand::SetPinMode => 0x50,
            NinaCommand::SetDigitalWrite => 0x51,
            NinaCommand::SetAnalogWrite => 0x52,
            NinaCommand::Start => 0xE0,
            NinaCommand::End => 0xEE,
            NinaCommand::Error => 0xEF,
        }
    }

    /// The opcode byte of this command.
    pub fn byte(self) -> (r: u8)
        ensures
            r == self.spec_byte(),
    {
        match self {
            NinaCommand::SetNetwork => 0x10,
            NinaCommand::SetNetworkAndPassphrase => 0x11,
            NinaCommand::SetKey => 0x12,
            NinaCommand::SetIpConfig => 0x14,
            NinaCommand::SetDnsConfig => 0x15,
            NinaCommand::SetHostname => 0x16,
            NinaCommand::SetPowerMode => 0x17,
            NinaCommand::SetApNetwork => 0x18,
            NinaCommand::SetApPassphrase => 0x19,
            NinaCommand::SetDebug => 0x1A,
            NinaCommand::GetConnectionStatus => 0x20,
            NinaCommand::GetIpAddress => 0x21,
            NinaCommand::GetMacAddress => 0x22,
            NinaCommand::GetCurrentSsid => 0x23,
            NinaCommand::GetCurrentRssi => 0x25,
            NinaCommand::GetCurrentEnct => 0x26,
            NinaCommand::ScanNetworks => 0x27,
            NinaCommand::StartServerTcp => 0x28,
            NinaCommand::GetSocket => 0x3F,
            NinaCommand::GetStateTcp => 0x29,
            NinaCommand::DataSentTcp => 0x2A,
            NinaCommand::AvailableDataTcp => 0x2B,
            NinaCommand::GetDataTcp => 0x2C,
            NinaCommand::StartClientTcp => 0x2D,
            NinaCommand::StopClientTcp => 0x2E,
            NinaCommand::GetClientStateTcp => 0x2F,
            NinaCommand::Disconnect => 0x30,
            NinaCommand::GetIdxRssi => 0x32,
            NinaCommand::GetIdxEnct => 0x33,
            NinaCommand::RequestHostByName => 0x34,
            NinaCommand::GetHostByName => 0x35,
            NinaCommand::StartScanNetworks => 0x36,
            NinaCommand::GetFirmwareVersion => 0x37,
            NinaCommand::Ping => 0x3E,
            NinaCommand::SendDataTcp => 0x44,
            NinaCommand::GetDatabufTcp => 0x45,
            NinaCommand::SetEnterpriseIdent => 0x4A,
            NinaCommand::SetEnterpriseUsername => 0x4B,
            NinaCommand::SetEnterprisePassword => 0x4C,
            NinaCommand::SetEnterpriseEnable => 0x4F,
            NinaCommand::SetPinMode => 0x50,
            NinaCommand::SetDigitalWrite => 0x51,
            NinaCommand::SetAnalogWrite => 0x52,
            NinaCommand::Start => 0xE0,
            NinaCommand::End => 0xEE,
            NinaCommand::Error => 0xEF,
        }
    }
}


/// One parameter of a request.
pub enum SendParam {
    Byte(u8),
    /// A 16-bit word sent big-endian.
    Word(u16),
    /// A 16-bit word sent little-endian.
    LEWord(u16),
    Bytes(Vec<u8>),
}

/// What the caller expects in one position of a reply.
#[derive(Debug, Copy, Clone, PartialEq, Eq, Structural)]
pub enum RecvParam {
    /// A one-byte acknowledgement.
    Ack,
    Byte,
    /// A raw socket number, not yet checked against the invalid sentinel.
    Socket,
    /// A byte that the co-processor may leave out at the end of its reply.
    OptionalByte,
    /// A one-byte parameter that must equal the given value.
    ExpectByte(u8),
    /// A big-endian 16-bit word.
    Word,
    /// A little-endian 16-bit word.
    LEWord,
    /// Exactly this many bytes.
    ByteArray(usize),
    /// Any number of bytes up to this capacity.
    Buffer(usize),
}

/// An ordered parameter list, with the width of its length prefixes.
pub struct Params<P> {
    params: Vec<P>,
    use_16_bit_length: bool,
}

impl<P> Params<P> {
    /// The parameters in order.
    pub closed spec fn items(&self) -> Seq<P> {
        self.params@
    }

    /// Whether each length prefix takes two bytes rather than one.
    pub closed spec fn wide(&self) -> bool {
        self.use_16_bit_length
    }

    pub fn none() -> (r: Self)
        ensures
            r.items() == Seq::<P>::empty(),
            !r.wide(),
    {
        Params { params: Vec::new(), use_16_bit_length: false }
    }

    pub fn of(params: Vec<P>) -> (r: Self)
        ensures
            r.items() == params@,
            !r.wide(),
    {
        Params { params, use_16_bit_length: false }
    }

    pub fn with_16_bit_length(params: Vec<P>) -> (r: Self)
        ensures
            r.items() == params@,
            r.wide(),
    {
        Params { params, use_16_bit_length: true }
    }

    /// The parameter count as it goes on the wire, in one byte.
    pub fn len(&self) -> (r: u8)
        ensures
            r == self.items().len() as u8,
    {
        self.params.len() as u8
    }

    pub fn use_16_bit_length(&self) -> (r: bool)
        ensures
            r == self.wide(),
    {
        self.use_16_bit_length
    }

    /// The parameter at `i`.
    pub fn get(&self, i: usize) -> (r: &P)
        requires
            i < self.items().len(),
        ensures
            *r == self.items()[i as int],
    {
        &self.params[i]
    }
}

/// The bytes of a 16-bit word, most significant first.
pub open spec fn be_bytes(w: u16) -> Seq<u8> {
    seq![(w / 256) as u8, (w % 256) as u8]
}

/// The bytes of a 16-bit word, least significant first.
pub open spec fn le_bytes(w: u16) -> Seq<u8> {
    seq![(w % 256) as u8, (w / 256) as u8]
}

/// The length prefix of a parameter: one byte, or two big-endian bytes when
/// the list is wide. A length too large for the field keeps its low bits.
pub open spec fn length_prefix(wide: bool, n: nat) -> Seq<u8> {
    if wide {
        seq![((n / 256) % 256) as u8, (n % 256) as u8]
    } else {
        seq![(n % 256) as u8]
    }
}

/// The payload of a request parameter.
pub open spec fn payload(p: SendParam) -> Seq<u8> {
    match p {
        SendParam::Byte(b) => seq![b],
        SendParam::Word(w) => be_bytes(w),
        SendParam::LEWord(w) => le_bytes(w),
        SendParam::Bytes(v) => v@,
    }
}

/// One parameter on the wire: its length prefix, then its payload.
pub open spec fn encode_param(wide: bool, p: SendParam) -> Seq<u8> {
    length_prefix(wide, payload(p).len()) + payload(p)
}

/// A parameter list on the wire, each parameter after the one before it.
pub open spec fn encode_params(wide: bool, ps: Seq<SendParam>) -> Seq<u8>
    decreases ps.len(),
{
    if ps.len() == 0 {
        seq![]
    } else {
        encode_params(wide, ps.drop_last()) + encode_param(wide, ps.last())
    }
}

/// `s` followed by zero bytes up to the next multiple of four.
pub open spec fn pad4(s: Seq<u8>) -> Seq<u8> {
    s + Seq::new(((4 - s.len() % 4) % 4) as nat, |i: int| 0u8)
}

/// A whole request: start marker, opcode with the reply flag cleared,
/// parameter count, the parameters, end marker, padding.
pub open spec fn request_frame(opcode: u8, wide: bool, ps: Seq<SendParam>) -> Seq<u8> {
    pad4(seq![START_BYTE, opcode & 0x7F, ps.len() as u8] + encode_params(wide, ps) + seq![END_BYTE])
}

/// The bytes of a request for `cmd` with parameters `params`, padded to a
/// multiple of four bytes.
pub fn encode_request(cmd: NinaCommand, params: &Params<SendParam>) -> (r: Vec<u8>)
    requires
        request_frame(cmd.spec_byte(), params.wide(), params.items()).len() <= usize::MAX,
    ensures
        r@ == request_frame(cmd.spec_byte(), params.wide(), params.items()),
        r@.len() % 4 == 0,
{
    let wide = params.use_16_bit_length();
    let ghost ps = params.items();
    let mut out: Vec<u8> = Vec::new();
    out.push(START_BYTE);
    out.push(cmd.byte() & 0x7F);
    out.push(params.len());
    let n = params.params.len();
    let mut i: usize = 0;
    proof {
        lemma_encode_params_prefix(wide, ps, 0);
    }
    while i < n
        invariant
            n == ps.len(),
            ps == params.items(),
            wide == params.wide(),
            i <= n,
            out@ == seq![START_BYTE, cmd.spec_byte() & 0x7F, ps.len() as u8] + encode_params(wide, ps.take(i as int)),
            request_frame(cmd.spec_byte(), wide, ps).len() <= usize::MAX,
        decreases n - i,
    {
        proof {
            lemma_encode_params_prefix(wide, ps, i as int + 1);
            assert(ps.take(i as int + 1).drop_last() =~= ps.take(i as int));
            assert(ps.take(i as int + 1).last() == ps[i as int]);
        }
        let ghost before = out@;
        write_param(&mut out, wide, &params.params[i]);
        proof {
            assert(out@ =~= seq![START_BYTE, cmd.spec_byte() & 0x7F, ps.len() as u8] + encode_params(wide, ps.take(i as int + 1)));
        }
        i = i + 1;
    }
    assert(ps.take(n as int) =~= ps);
    out.push(END_BYTE);
    let ghost body = out@;
    assert(body == seq![START_BYTE, cmd.spec_byte() & 0x7F, ps.len() as u8] + encode_params(wide, ps) + seq![END_BYTE]);
    while out.len() % 4 != 0
        invariant
            body.len() <= out@.len() <= body.len() + 3,
            pad4(body).len() <= usize::MAX,
            out@.subrange(0, body.len() as int) == body,
            forall|k: int| body.len() <= k < out@.len() ==> out@[k] == 0u8,
            out@.len() <= pad4(body).len(),
        decreases body.len() + 3 - out@.len(),
    {
        out.push(0);
    }
    assert(out@ =~= pad4(body));
    out
}

/// The encoding of `ps.take(i)` is a prefix of the encoding of `ps`, and no
/// longer than it.
proof fn lemma_encode_params_prefix(wide: bool, ps: Seq<SendParam>, i: int)
    requires
        0 <= i <= ps.len(),
    ensures
        encode_params(wide, ps.take(i)).len() <= encode_params(wide, ps).len(),
        encode_params(wide, ps).subrange(0, encode_params(wide, ps.take(i)).len() as int)
            == encode_params(wide, ps.take(i)),
    decreases ps.len(),
{
    if i == ps.len() {
        assert(ps.take(i) =~= ps);
        assert(encode_params(wide, ps).subrange(0, encode_params(wide, ps).len() as int) =~= encode_params(wide, ps));
    } else {
        let pre = ps.drop_last();
        lemma_encode_params_prefix(wide, pre, i);
        assert(pre.take(i) =~= ps.take(i));
        let a = encode_params(wide, pre);
        let t = encode_params(wide, ps.take(i));
        assert(encode_params(wide, ps) == a + encode_param(wide, ps.last()));
        assert((a + encode_param(wide, ps.last())).subrange(0, t.len() as int) =~= a.subrange(0, t.len() as int));
    }
}

/// Appends one parameter: its length prefix, then its payload.
fn write_param(out: &mut Vec<u8>, wide: bool, p: &SendParam)
    requires
        old(out)@.len() + encode_param(wide, *p).len() <= usize::MAX,
    ensures
        final(out)@ == old(out)@ + encode_param(wide, *p),
{
    let ghost start = out@;
    match p {
        SendParam::Byte(b) => {
            write_length(out, wide, 1);
            out.push(*b);
        },
        SendParam::Word(w) => {
            write_length(out, wide, 2);
            out.push((*w / 256) as u8);
            out.push((*w % 256) as u8);
        },
        SendParam::LEWord(w) => {
            write_length(out, wide, 2);
            out.push((*w % 256) as u8);
            out.push((*w / 256) as u8);
        },
        SendParam::Bytes(v) => {
            write_length(out, wide, v.len());
            let ghost mid = out@;
            let mut j: usize = 0;
            while j < v.len()
                invariant
                    j <= v@.len(),
                    mid.len() + v@.len() <= usize::MAX,
                    out@ == mid + v@.take(j as int),
                decreases v@.len() - j,
            {
                out.push(v[j]);
                assert(v@.take(j as int + 1) =~= v@.take(j as int).push(v@[j as int]));
                j = j + 1;
            }
            assert(v@.take(v@.len() as int) =~= v@);
        },
    }
    assert(final(out)@ =~= start + encode_param(wide, *p));
}

/// Appends a length prefix.
fn write_length(out: &mut Vec<u8>, wide: bool, n: usize)
    requires
        old(out)@.len() + length_prefix(wide, n as nat).len() <= usize::MAX,
    ensures
        final(out)@ == old(out)@ + length_prefix(wide, n as nat),
{
    let ghost start = out@;
    if wide {
        out.push(((n / 256) % 256) as u8);
        out.push((n % 256) as u8);
    } else {
        out.push((n % 256) as u8);
    }
    assert(out@ =~= start + length_prefix(wide, n as nat));
}

/// One value read from a reply.
pub enum ReplyValue {
    /// An acknowledgement, or a byte that matched what was expected.
    Ack,
    Byte(u8),
    /// A raw socket number.
    Socket(u8),
    OptionalByte(Option<u8>),
    Word(u16),
    Bytes(Vec<u8>),
}

/// A reply value as mathematics sees it.
pub enum ReplyModel {
    Ack,
    Byte(u8),
    Socket(u8),
    OptionalByte(Option<u8>),
    Word(u16),
    Bytes(Seq<u8>),
}

impl View for ReplyValue {
    type V = ReplyModel;

    open spec fn view(&self) -> ReplyModel {
        match self {
            ReplyValue::Ack => ReplyModel::Ack,
            ReplyValue::Byte(b) => ReplyModel::Byte(*b),
            ReplyValue::Socket(b) => ReplyModel::Socket(*b),
            ReplyValue::OptionalByte(o) => ReplyModel::OptionalByte(*o),
            ReplyValue::Word(w) => ReplyModel::Word(*w),
            ReplyValue::Bytes(v) => ReplyModel::Bytes(v@),
        }
    }
}

/// Where reading a reply from a prefix of its bytes has got to.
pub enum Decoded<E> {
    /// More bytes are needed: at least this many in all.
    Incomplete(usize),
    Failed(Error<E>),
    /// One value for each expected slot, in order.
    Done(Vec<ReplyValue>),
}

/// `Decoded` as mathematics sees it; `Done` also gives how many bytes were
/// consumed.
pub enum DecodedModel<E> {
    Incomplete(nat),
    Failed(Error<E>),
    Done(Seq<ReplyModel>, nat),
}

/// The outcome of reading one slot.
pub enum SlotModel<E> {
    Short(nat),
    Bad(Error<E>),
    Got(ReplyModel, nat),
}

/// Bytes taken by a length prefix.
pub open spec fn prefix_width(wide: bool) -> nat {
    if wide { 2 } else { 1 }
}

/// The length prefix at `pos`, big-endian when wide.
pub open spec fn length_at(wide: bool, b: Seq<u8>, pos: int) -> nat {
    if wide {
        (b[pos] as nat) * 256 + b[pos + 1] as nat
    } else {
        b[pos] as nat
    }
}

/// The length a slot insists on, if any.
pub open spec fn fixed_length(slot: RecvParam) -> Option<nat> {
    match slot {
        RecvParam::Word | RecvParam::LEWord => Some(2),
        RecvParam::ByteArray(n) => Some(n as nat),
        RecvParam::Buffer(_) => None,
        _ => Some(1),
    }
}

/// Reads the slot whose length prefix starts at `pos`.
pub open spec fn decode_slot<E>(wide: bool, slot: RecvParam, b: Seq<u8>, pos: nat) -> SlotModel<E> {
    let p = pos + prefix_width(wide);
    if p > b.len() {
        SlotModel::Short(p)
    } else {
        let n = length_at(wide, b, pos as int);
        if fixed_length(slot) is Some && n != fixed_length(slot)->0 {
            SlotModel::Bad(Error::MismatchedParamSize(fixed_length(slot)->0 as usize, n as usize))
        } else if slot is Buffer && n > slot->Buffer_0 {
            SlotModel::Bad(Error::MismatchedParamSize(slot->Buffer_0, n as usize))
        } else if p + n > b.len() {
            SlotModel::Short(p + n)
        } else {
            match slot {
                RecvParam::Ack => if b[p as int] == ACK_BYTE {
                    SlotModel::Got(ReplyModel::Ack, p + 1)
                } else {
                    SlotModel::Bad(Error::UnexpectedResponse(ACK_BYTE, b[p as int]))
                },
                RecvParam::ExpectByte(x) => if b[p as int] == x {
                    SlotModel::Got(ReplyModel::Ack, p + 1)
                } else {
                    SlotModel::Bad(Error::UnexpectedResponse(x, b[p as int]))
                },
                RecvParam::Byte => SlotModel::Got(ReplyModel::Byte(b[p as int]), p + 1),
                RecvParam::Socket => SlotModel::Got(ReplyModel::Socket(b[p as int]), p + 1),
                RecvParam::OptionalByte => SlotModel::Got(ReplyModel::OptionalByte(Some(b[p as int])), p + 1),
                RecvParam::Word => SlotModel::Got(
                    ReplyModel::Word((b[p as int] as nat * 256 + b[p + 1int] as nat) as u16),
                    p + 2,
                ),
                RecvParam::LEWord => SlotModel::Got(
                    ReplyModel::Word((b[p + 1int] as nat * 256 + b[p as int] as nat) as u16),
                    p + 2,
                ),
                _ => SlotModel::Got(ReplyModel::Bytes(b.subrange(p as int, (p + n) as int)), p + n),
            }
        }
    }
}

/// `v` put in front of the values of a finished read.
pub open spec fn prepend<E>(v: ReplyModel, d: DecodedModel<E>) -> DecodedModel<E> {
    match d {
        DecodedModel::Done(vs, k) => DecodedModel::Done(seq![v] + vs, k),
        _ => d,
    }
}

/// `vs` put in front of the values of a finished read.
pub open spec fn prepend_all<E>(vs: Seq<ReplyModel>, d: DecodedModel<E>) -> DecodedModel<E> {
    match d {
        DecodedModel::Done(ws, k) => DecodedModel::Done(vs + ws, k),
        _ => d,
    }
}

/// Reads slots `i..` of `slots` from `pos` on, `idx` parameters of the
/// `count` that the co-processor announced having been read already. Once the
/// count is used up an optional byte is absent and any other slot is missing;
/// parameters left over after the last slot are unexpected.
pub open spec fn decode_slots<E>(
    wide: bool,
    slots: Seq<RecvParam>,
    i: nat,
    idx: nat,
    count: nat,
    b: Seq<u8>,
    pos: nat,
) -> DecodedModel<E>
    decreases slots.len() - i,
{
    if i >= slots.len() {
        if count > idx {
            DecodedModel::Failed(Error::UnexpectedParam(idx as u8))
        } else {
            DecodedModel::Done(seq![], pos)
        }
    } else if idx >= count {
        if slots[i as int] is OptionalByte {
            prepend(ReplyModel::OptionalByte(None), decode_slots(wide, slots, i + 1, idx, count, b, pos))
        } else {
            DecodedModel::Failed(Error::MissingParam(idx as u8))
        }
    } else {
        match decode_slot::<E>(wide, slots[i as int], b, pos) {
            SlotModel::Short(k) => DecodedModel::Incomplete(k),
            SlotModel::Bad(e) => DecodedModel::Failed(e),
            SlotModel::Got(v, p) => prepend(v, decode_slots(wide, slots, i + 1, idx + 1, count, b, p)),
        }
    }
}

/// Reads a parameter list: its count byte, then one parameter per slot.
pub open spec fn decode_params<E>(wide: bool, slots: Seq<RecvParam>, b: Seq<u8>, pos: nat) -> DecodedModel<E> {
    if pos + 1 > b.len() {
        DecodedModel::Incomplete(pos + 1)
    } else {
        decode_slots(wide, slots, 0, 0, b[pos as int] as nat, b, pos + 1)
    }
}

/// Reads the bytes that follow a reply's start marker: the opcode with the
/// reply flag set, then the parameter list.
pub open spec fn decode_reply<E>(opcode: u8, wide: bool, slots: Seq<RecvParam>, b: Seq<u8>) -> DecodedModel<E> {
    if b.len() < 1 {
        DecodedModel::Incomplete(1)
    } else if b[0] != (opcode | REPLY_FLAG) {
        DecodedModel::Failed(Error::UnexpectedResponse(opcode | REPLY_FLAG, b[0]))
    } else {
        decode_params(wide, slots, b, 1)
    }
}

/// Whether an executable result is the mathematical one.
pub open spec fn decoded_as<E>(r: Decoded<E>, m: DecodedModel<E>) -> bool {
    match r {
        Decoded::Incomplete(k) => m == DecodedModel::<E>::Incomplete(k as nat),
        Decoded::Failed(e) => m == DecodedModel::<E>::Failed(e),
        Decoded::Done(vs) => m is Done && vs@.len() == m->Done_0.len()
            && forall|j: int| 0 <= j < vs@.len() ==> vs@[j]@ == m->Done_0[j],
    }
}

/// The executable outcome of reading one slot.
enum SlotStep<E> {
    Short(usize),
    Bad(Error<E>),
    Got(ReplyValue, usize),
}

spec fn slot_as<E>(r: SlotStep<E>, m: SlotModel<E>) -> bool {
    match r {
        SlotStep::Short(k) => m == SlotModel::<E>::Short(k as nat),
        SlotStep::Bad(e) => m == SlotModel::<E>::Bad(e),
        SlotStep::Got(v, p) => m == SlotModel::<E>::Got(v@, p as nat),
    }
}

/// Reads the slot whose length prefix starts at `pos`.
fn read_slot<E>(wide: bool, slot: RecvParam, b: &Vec<u8>, pos: usize) -> (r: SlotStep<E>)
    requires
        pos <= b@.len(),
        b@.len() + 0x10002 <= usize::MAX,
    ensures
        slot_as(r, decode_slot::<E>(wide, slot, b@, pos as nat)),
        r is Got ==> r->Got_1 <= b@.len(),
{
    let w: usize = if wide { 2 } else { 1 };
    if b.len() - pos < w {
        return SlotStep::Short(pos + w);
    }
    let p = pos + w;
    let n: usize = if wide {
        (b[pos] as usize) * 256 + b[pos + 1] as usize
    } else {
        b[pos] as usize
    };
    let fixed: Option<usize> = match slot {
        RecvParam::Word | RecvParam::LEWord => Some(2),
        RecvParam::ByteArray(k) => Some(k),
        RecvParam::Buffer(_) => None,
        _ => Some(1),
    };
    if let Some(f) = fixed {
        if n != f {
            return SlotStep::Bad(Error::MismatchedParamSize(f, n));
        }
    }
    if let RecvParam::Buffer(cap) = slot {
        if n > cap {
            return SlotStep::Bad(Error::MismatchedParamSize(cap, n));
        }
    }
    if b.len() - p < n {
        return SlotStep::Short(p + n);
    }
    match slot {
        RecvParam::Ack => if b[p] == ACK_BYTE {
            SlotStep::Got(ReplyValue::Ack, p + 1)
        } else {
            SlotStep::Bad(Error::UnexpectedResponse(ACK_BYTE, b[p]))
        },
        RecvParam::ExpectByte(x) => if b[p] == x {
            SlotStep::Got(ReplyValue::Ack, p + 1)
        } else {
            SlotStep::Bad(Error::UnexpectedResponse(x, b[p]))
        },
        RecvParam::Byte => SlotStep::Got(ReplyValue::Byte(b[p]), p + 1),
        RecvParam::Socket => SlotStep::Got(ReplyValue::Socket(b[p]), p + 1),
        RecvParam::OptionalByte => SlotStep::Got(ReplyValue::OptionalByte(Some(b[p])), p + 1),
        RecvParam::Word => SlotStep::Got(ReplyValue::Word((b[p] as u16) * 256 + b[p + 1] as u16), p + 2),
        RecvParam::LEWord => SlotStep::Got(ReplyValue::Word((b[p + 1] as u16) * 256 + b[p] as u16), p + 2),
        _ => {
            let mut out: Vec<u8> = Vec::new();
            let mut j: usize = 0;
            while j < n
                invariant
                    p + n <= b@.len(),
                    b@.len() <= usize::MAX,
                    j <= n,
                    out@ == b@.subrange(p as int, (p + j) as int),
                decreases n - j,
            {
                out.push(b[p + j]);
                assert(b@.subrange(p as int, (p + j + 1) as int) =~= b@.subrange(p as int, (p + j) as int).push(b@[p + j]));
                j = j + 1;
            }
            SlotStep::Got(ReplyValue::Bytes(out), p + n)
        },
    }
}

proof fn lemma_prepend_push<E>(vm: Seq<ReplyModel>, v: ReplyModel, d: DecodedModel<E>)
    ensures
        prepend_all(vm, prepend(v, d)) == prepend_all(vm.push(v), d),
{
    if let DecodedModel::Done(ws, k) = d {
        assert(vm + (seq![v] + ws) =~= vm.push(v) + ws);
    }
}

/// Reads the bytes that follow a reply's start marker against the slots that
/// `params` expects. Given a prefix of the reply it says how many bytes it
/// needs at least, or fails as soon as the bytes seen so far are wrong.
pub fn decode_response<E>(cmd: NinaCommand, params: &Params<RecvParam>, b: &Vec<u8>) -> (r: Decoded<E>)
    requires
        b@.len() + 0x10002 <= usize::MAX,
    ensures
        decoded_as(r, decode_reply::<E>(cmd.spec_byte(), params.wide(), params.items(), b@)),
{
    let wide = params.use_16_bit_length();
    let ghost slots = params.items();
    let reply_op = cmd.byte() | REPLY_FLAG;
    if b.len() < 1 {
        return Decoded::Incomplete(1);
    }
    if b[0] != reply_op {
        return Decoded::Failed(Error::UnexpectedResponse(reply_op, b[0]));
    }
    if b.len() < 2 {
        return Decoded::Incomplete(2);
    }
    let count = b[1];
    let mut pos: usize = 2;
    let mut idx: u8 = 0;
    let mut values: Vec<ReplyValue> = Vec::new();
    let ghost mut vm: Seq<ReplyModel> = seq![];
    let n = params.params.len();
    let mut i: usize = 0;
    assert(prepend_all(vm, decode_slots::<E>(wide, slots, 0, 0, count as nat, b@, 2))
        == decode_slots::<E>(wide, slots, 0, 0, count as nat, b@, 2)) by {
        if let DecodedModel::Done(ws, k) = decode_slots::<E>(wide, slots, 0, 0, count as nat, b@, 2) {
            assert(vm + ws =~= ws);
        }
    }
    while i < n
        invariant
            n == slots.len(),
            slots == params.items(),
            wide == params.wide(),
            i <= n,
            idx <= count,
            pos <= b@.len(),
            b@.len() + 0x10002 <= usize::MAX,
            b@.len() >= 2,
            count == b@[1],
            values@.len() == vm.len(),
            forall|j: int| 0 <= j < vm.len() ==> values@[j]@ == vm[j],
            decode_reply::<E>(cmd.spec_byte(), wide, slots, b@)
                == prepend_all(vm, decode_slots::<E>(wide, slots, i as nat, idx as nat, count as nat, b@, pos as nat)),
        decreases n - i,
    {
        let slot = *params.get(i);
        if idx >= count {
            if slot == RecvParam::OptionalByte {
                proof {
                    lemma_prepend_push(vm, ReplyModel::OptionalByte(None),
                        decode_slots::<E>(wide, slots, i as nat + 1, idx as nat, count as nat, b@, pos as nat));
                    vm = vm.push(ReplyModel::OptionalByte(None));
                }
                values.push(ReplyValue::OptionalByte(None));
                i = i + 1;
            } else {
                return Decoded::Failed(Error::MissingParam(idx));
            }
        } else {
            match read_slot::<E>(wide, slot, b, pos) {
                SlotStep::Short(k) => {
                    return Decoded::Incomplete(k);
                },
                SlotStep::Bad(e) => {
                    return Decoded::Failed(e);
                },
                SlotStep::Got(v, p) => {
                    proof {
                        lemma_prepend_push(vm, v@,
                            decode_slots::<E>(wide, slots, i as nat + 1, idx as nat + 1, count as nat, b@, p as nat));
                        vm = vm.push(v@);
                    }
                    values.push(v);
                    pos = p;
                    idx = idx + 1;
                    i = i + 1;
                },
            }
        }
    }
    if count > idx {
        return Decoded::Failed(Error::UnexpectedParam(idx));
    }
    assert(vm + seq![] =~= vm);
    Decoded::Done(values)
}

/// One request and the reply it is answered with.
pub struct Exchange {
    pub command: NinaCommand,
    pub send: Params<SendParam>,
    pub recv: Params<RecvParam>,
}

/// The wire payloads of a parameter list, in order.
pub open spec fn payloads(ps: Seq<SendParam>) -> Seq<Seq<u8>> {
    ps.map_values(|p: SendParam| payload(p))
}

/// Whether an exchange sends `cmd` with one-byte length prefixes on both sides.
pub open spec fn narrow_exchange(r: Exchange, cmd: NinaCommand) -> bool {
    r.command == cmd && !r.send.wide() && !r.recv.wide()
}

/// The byte held by value `i` of a reply, or `default` where there is none.
pub open spec fn reply_byte(vs: Seq<ReplyModel>, i: int, default: u8) -> u8 {
    if 0 <= i < vs.len() {
        match vs[i] {
            ReplyModel::Byte(b) => b,
            ReplyModel::Socket(b) => b,
            ReplyModel::OptionalByte(Some(b)) => b,
            _ => default,
        }
    } else {
        default
    }
}

/// The word held by value `i` of a reply, or `default` where there is none.
pub open spec fn reply_word(vs: Seq<ReplyModel>, i: int, default: u16) -> u16 {
    if 0 <= i < vs.len() && vs[i] is Word {
        vs[i]->Word_0
    } else {
        default
    }
}

/// The models of a list of reply values.
pub open spec fn models(vs: Seq<ReplyValue>) -> Seq<ReplyModel> {
    vs.map_values(|v: ReplyValue| v@)
}

/// The byte held by value `i`, or `default`.
pub fn byte_at(values: &Vec<ReplyValue>, i: usize, default: u8) -> (r: u8)
    ensures
        r == reply_byte(models(values@), i as int, default),
{
    if i < values.len() {
        match &values[i] {
            ReplyValue::Byte(b) => *b,
            ReplyValue::Socket(b) => *b,
            ReplyValue::OptionalByte(Some(b)) => *b,
            _ => default,
        }
    } else {
        default
    }
}

/// The word held by value `i`, or `default`.
pub fn word_at(values: &Vec<ReplyValue>, i: usize, default: u16) -> (r: u16)
    ensures
        r == reply_word(models(values@), i as int, default),
{
    if i < values.len() {
        match &values[i] {
            ReplyValue::Word(w) => *w,
            _ => default,
        }
    } else {
        default
    }
}

/// The bytes of a string.
pub fn str_bytes(s: &str) -> (r: Vec<u8>)
    ensures
        r@ == s.spec_bytes(),
{
    let b = s.as_bytes();
    let mut out: Vec<u8> = Vec::new();
    let mut i: usize = 0;
    while i < b.len()
        invariant
            i <= b@.len(),
            out@ == b@.take(i as int),
        decreases b@.len() - i,
    {
        out.push(b[i]);
        assert(b@.take(i as int + 1) =~= b@.take(i as int).push(b@[i as int]));
        i = i + 1;
    }
    assert(b@.take(b@.len() as int) =~= b@);
    out
}

/// Bytes read while waiting for a reply to start.
pub const RESPONSE_START_POLLS: u32 = 100;

/// Pause between two such reads, in milliseconds.
pub const RESPONSE_POLL_PAUSE_MS: u16 = 1;

/// What to do after one byte read while waiting for a reply to start.
#[derive(Debug, Copy, Clone, PartialEq, Eq, Structural)]
pub enum StartStep {
    /// The start marker: the reply follows.
    Started,
    /// The error sentinel: the co-processor refused the request.
    ErrorResponse,
    PauseThenRead,
    /// Pause, then fail with a response timeout.
    PauseThenTimeOut,
}

/// The budget of reads for one reply start.
pub fn response_poller() -> (r: Poller)
    ensures
        r == (Poller { misses: 0, limit: RESPONSE_START_POLLS }),
        r.can_retry(),
{
    Poller::new(RESPONSE_START_POLLS)
}

/// Takes in one byte read while waiting for a reply to start. The start
/// marker and the error sentinel end the wait at once, each with its own
/// outcome; any other byte is a miss.
pub fn response_start_step(poll: &mut Poller, byte: u8) -> (r: StartStep)
    requires
        old(poll).can_retry(),
    ensures
        byte == START_BYTE ==> r == StartStep::Started && *final(poll) == *old(poll),
        byte == ERROR_BYTE ==> r == StartStep::ErrorResponse && *final(poll) == *old(poll),
        byte != START_BYTE && byte != ERROR_BYTE ==> {
            let (q, step) = old(poll).next(false);
            &&& *final(poll) == q
            &&& r == (if step == PollStep::Exhausted { StartStep::PauseThenTimeOut } else { StartStep::PauseThenRead })
        },
        r == StartStep::PauseThenRead ==> final(poll).can_retry(),
{
    if byte == START_BYTE {
        StartStep::Started
    } else if byte == ERROR_BYTE {
        StartStep::ErrorResponse
    } else {
        match poll.observe(false) {
            PollStep::Exhausted => StartStep::PauseThenTimeOut,
            _ => StartStep::PauseThenRead,
        }
    }
}

/// Every request frame fills a whole number of four-byte words.
pub proof fn lemma_request_frame_aligned(opcode: u8, wide: bool, ps: Seq<SendParam>)
    ensures
        request_frame(opcode, wide, ps).len() % 4 == 0,
{
}

/// The reply slot that reads back a request parameter.
pub open spec fn slot_for(p: SendParam) -> RecvParam {
    match p {
        SendParam::Byte(_) => RecvParam::Byte,
        SendParam::Word(_) => RecvParam::Word,
        SendParam::LEWord(_) => RecvParam::LEWord,
        SendParam::Bytes(v) => RecvParam::ByteArray(v@.len() as usize),
    }
}

/// The value a request parameter reads back as.
pub open spec fn value_for(p: SendParam) -> ReplyModel {
    match p {
        SendParam::Byte(b) => ReplyModel::Byte(b),
        SendParam::Word(w) => ReplyModel::Word(w),
        SendParam::LEWord(w) => ReplyModel::Word(w),
        SendParam::Bytes(v) => ReplyModel::Bytes(v@),
    }
}

/// Whether a parameter's length fits its length prefix.
pub open spec fn fits(wide: bool, p: SendParam) -> bool {
    payload(p).len() < if wide { 65536nat } else { 256nat }
}

/// A parameter list encoded, behind its count, reads back as the same
/// values through the matching slots, in either prefix width, provided the
/// count fits a byte and each length fits its prefix.
pub proof fn lemma_params_round_trip<E>(wide: bool, ps: Seq<SendParam>)
    requires
        ps.len() <= 255,
        forall|i: int| 0 <= i < ps.len() ==> fits(wide, #[trigger] ps[i]),
    ensures
        decode_params::<E>(wide, ps.map_values(|p: SendParam| slot_for(p)),
            seq![ps.len() as u8] + encode_params(wide, ps), 0)
            == DecodedModel::<E>::Done(ps.map_values(|p: SendParam| value_for(p)),
                1 + encode_params(wide, ps).len()),
{
    let b = seq![ps.len() as u8] + encode_params(wide, ps);
    assert(b[0] as nat == ps.len());
    lemma_slots_round_trip::<E>(wide, ps, 0);
    assert(ps.take(0) =~= Seq::<SendParam>::empty());
    assert(ps.map_values(|p: SendParam| value_for(p)).skip(0) =~= ps.map_values(|p: SendParam| value_for(p)));
}

#[verifier::spinoff_prover]
#[verifier::rlimit(40)]
proof fn lemma_slots_round_trip<E>(wide: bool, ps: Seq<SendParam>, i: nat)
    requires
        ps.len() <= 255,
        i <= ps.len(),
        forall|j: int| 0 <= j < ps.len() ==> fits(wide, #[trigger] ps[j]),
    ensures
        decode_slots::<E>(wide, ps.map_values(|p: SendParam| slot_for(p)), i, i, ps.len(),
            seq![ps.len() as u8] + encode_params(wide, ps), 1 + encode_params(wide, ps.take(i as int)).len())
            == DecodedModel::<E>::Done(ps.map_values(|p: SendParam| value_for(p)).skip(i as int),
                1 + encode_params(wide, ps).len()),
    decreases ps.len() - i,
{
    let b = seq![ps.len() as u8] + encode_params(wide, ps);
    let slots = ps.map_values(|p: SendParam| slot_for(p));
    let values = ps.map_values(|p: SendParam| value_for(p));
    if i == ps.len() {
        assert(ps.take(i as int) =~= ps);
        assert(values.skip(i as int) =~= Seq::<ReplyModel>::empty());
    } else {
        let pre = encode_params(wide, ps.take(i as int));
        let q = encode_param(wide, ps[i as int]);
        let pos = 1 + pre.len();
        lemma_frame_holds_param(wide, ps, i);
        lemma_slot_round_trip::<E>(wide, ps[i as int], b, pos);
        lemma_slots_round_trip::<E>(wide, ps, i + 1);
        assert(slots[i as int] == slot_for(ps[i as int]));
        assert(values[i as int] == value_for(ps[i as int]));
        let rest = decode_slots::<E>(wide, slots, i + 1, i + 1, ps.len(), b, pos + q.len());
        assert(rest == DecodedModel::<E>::Done(values.skip(i as int + 1), 1 + encode_params(wide, ps).len()));
        assert(decode_slots::<E>(wide, slots, i, i, ps.len(), b, pos) == prepend(values[i as int], rest));
        assert(values.skip(i as int) =~= seq![values[i as int]] + values.skip(i as int + 1));
    }
}

/// Behind the count byte, parameter `i` of a list stands right after the
/// parameters before it.
proof fn lemma_frame_holds_param(wide: bool, ps: Seq<SendParam>, i: nat)
    requires
        i < ps.len(),
    ensures
        ({
            let b = seq![ps.len() as u8] + encode_params(wide, ps);
            let pos = 1 + encode_params(wide, ps.take(i as int)).len();
            let q = encode_param(wide, ps[i as int]);
            &&& pos + q.len() == 1 + encode_params(wide, ps.take(i as int + 1)).len()
            &&& pos + q.len() <= b.len()
            &&& forall|k: int| 0 <= k < q.len() ==> b[pos + k] == q[k]
        }),
{
    let b = seq![ps.len() as u8] + encode_params(wide, ps);
    let pre = encode_params(wide, ps.take(i as int));
    let q = encode_param(wide, ps[i as int]);
    lemma_encode_params_prefix(wide, ps, i as int + 1);
    assert(ps.take(i as int + 1).drop_last() =~= ps.take(i as int));
    assert(encode_params(wide, ps.take(i as int + 1)) == pre + q);
    let pos = 1 + pre.len();
    assert forall|k: int| 0 <= k < q.len() implies b[pos + k] == q[k] by {
        assert(encode_params(wide, ps)[pre.len() + k] == (pre + q)[pre.len() + k]);
    }
}

proof fn lemma_slot_round_trip<E>(wide: bool, p: SendParam, b: Seq<u8>, pos: nat)
    requires
        fits(wide, p),
        pos + encode_param(wide, p).len() <= b.len(),
        forall|k: int| 0 <= k < encode_param(wide, p).len() ==> b[pos + k] == encode_param(wide, p)[k],
    ensures
        decode_slot::<E>(wide, slot_for(p), b, pos) == SlotModel::<E>::Got(value_for(p), pos + encode_param(wide, p).len()),
{
    let n = payload(p).len();
    let w = prefix_width(wide);
    let q = encode_param(wide, p);
    assert(q.len() == w + n);
    if wide {
        assert(b[pos as int] == q[0]);
        assert(b[pos + 1int] == q[1]);
        assert(((n / 256) % 256) * 256 + n % 256 == n) by (nonlinear_arith)
            requires n < 65536;
    } else {
        assert(b[pos as int] == q[0]);
    }
    assert(length_at(wide, b, pos as int) == n);
    let s = pos + w;
    assert forall|k: int| 0 <= k < n implies b[s + k] == payload(p)[k] by {
        assert(b[pos + (w + k)] == q[w + k]);
    }
    match p {
        SendParam::Byte(x) => {
            assert(b[s as int] == payload(p)[0]);
        },
        SendParam::Word(x) => {
            assert(b[s as int] == payload(p)[0]);
            assert(b[s + 1int] == payload(p)[1]);
            assert((x / 256) * 256 + x % 256 == x) by (nonlinear_arith);
        },
        SendParam::LEWord(x) => {
            assert(b[s as int] == payload(p)[0]);
            assert(b[s + 1int] == payload(p)[1]);
            assert((x / 256) * 256 + x % 256 == x) by (nonlinear_arith);
        },
        SendParam::Bytes(v) => {
            assert(b.subrange(s as int, (s + n) as int) =~= v@);
        },
    }
}

/// A slot of fixed size whose declared length differs from that size fails
/// the reply with both lengths, expected first.
pub proof fn lemma_size_mismatch<E>(
    wide: bool,
    slots: Seq<RecvParam>,
    i: nat,
    idx: nat,
    count: nat,
    b: Seq<u8>,
    pos: nat,
)
    requires
        i < slots.len(),
        idx < count,
        pos + prefix_width(wide) <= b.len(),
        fixed_length(slots[i as int]) is Some,
        length_at(wide, b, pos as int) != fixed_length(slots[i as int])->0,
    ensures
        decode_slots::<E>(wide, slots, i, idx, count, b, pos) == DecodedModel::<E>::Failed(
            Error::MismatchedParamSize(fixed_length(slots[i as int])->0 as usize, length_at(wide, b, pos as int) as usize),
        ),
{
}

/// Once the announced count is used up, an optional byte is read as absent
/// and the slots after it go on, while any other slot fails as missing.
pub proof fn lemma_count_exhausted<E>(
    wide: bool,
    slots: Seq<RecvParam>,
    i: nat,
    idx: nat,
    count: nat,
    b: Seq<u8>,
    pos: nat,
)
    requires
        i < slots.len(),
        idx >= count,
    ensures
        slots[i as int] is OptionalByte ==> decode_slots::<E>(wide, slots, i, idx, count, b, pos)
            == prepend(ReplyModel::OptionalByte(None), decode_slots::<E>(wide, slots, i + 1, idx, count, b, pos)),
        !(slots[i as int] is OptionalByte) ==> decode_slots::<E>(wide, slots, i, idx, count, b, pos)
            == DecodedModel::<E>::Failed(Error::MissingParam(idx as u8)),
{
}

/// A big-endian word slot reads its first byte as the high byte; a
/// little-endian one reads it as the low byte.
pub proof fn lemma_word_byte_order<E>(wide: bool, b: Seq<u8>, pos: nat)
    requires
        pos + prefix_width(wide) + 2 <= b.len(),
        length_at(wide, b, pos as int) == 2,
    ensures
        ({
            let p = pos + prefix_width(wide);
            &&& decode_slot::<E>(wide, RecvParam::Word, b, pos) == SlotModel::<E>::Got(
                ReplyModel::Word((b[p as int] as nat * 256 + b[p + 1int] as nat) as u16), p + 2)
            &&& decode_slot::<E>(wide, RecvParam::LEWord, b, pos) == SlotModel::<E>::Got(
                ReplyModel::Word((b[p + 1int] as nat * 256 + b[p as int] as nat) as u16), p + 2)
        }),
{
}

} // verus!

//! Network configuration queries and host name resolution.
use vstd::prelude::*;
use vstd::string::StringSliceAdditionalSpecFns;

use crate::commands::{narrow_exchange, payloads, models, str_bytes, Exchange, NinaCommand, Params, RecvParam, ReplyModel, ReplyValue, SendParam};

verus! {

/// The station's addresses.
#[derive(Debug, Default)]
pub struct NetworkInfo {
    pub ip: [u8; 4],
    pub netmask: [u8; 4],
    pub gateway_ip: [u8; 4],
}

/// The four bytes of value `i` of a reply, or zeros where it holds none.
pub open spec fn reply_address(vs: Seq<ReplyModel>, i: int) -> Seq<u8> {
    if 0 <= i < vs.len() && vs[i] is Bytes && vs[i]->Bytes_0.len() == 4 {
        vs[i]->Bytes_0
    } else {
        seq![0u8, 0u8, 0u8, 0u8]
    }
}

/// The four bytes of value `i`, or zeros.
pub fn address_at(values: &Vec<ReplyValue>, i: usize) -> (r: [u8; 4])
    ensures
        r@ == reply_address(models(values@), i as int),
{
    let mut a = [0u8; 4];
    if i < values.len() {
        match &values[i] {
            ReplyValue::Bytes(v) => {
                if v.len() == 4 {
                    a = [v[0], v[1], v[2], v[3]];
                    assert(a@ =~= v@);
                }
            },
            _ => {},
        }
    }
    assert(a@ =~= reply_address(models(values@), i as int));
    a
}

/// Asks for the station's address, netmask and gateway.
pub fn network_info_exchange() -> (r: Exchange)
    ensures
        narrow_exchange(r, NinaCommand::GetIpAddress),
        r.send.items().len() == 0,
        r.recv.items() == seq![RecvParam::ByteArray(4), RecvParam::ByteArray(4), RecvParam::ByteArray(4)],
{
    Exchange {
        command: NinaCommand::GetIpAddress,
        send: Params::none(),
        recv: Params::of(vec![RecvParam::ByteArray(4), RecvParam::ByteArray(4), RecvParam::ByteArray(4)]),
    }
}

/// The addresses in the reply to `network_info_exchange`.
pub fn network_info_from_reply(values: &Vec<ReplyValue>) -> (r: NetworkInfo)
    ensures
        r.ip@ == reply_address(models(values@), 0),
        r.netmask@ == reply_address(models(values@), 1),
        r.gateway_ip@ == reply_address(models(values@), 2),
{
    NetworkInfo { ip: address_at(values, 0), netmask: address_at(values, 1), gateway_ip: address_at(values, 2) }
}

/// Asks the co-processor to look up `name`.
pub fn request_host_exchange(name: &str) -> (r: Exchange)
    ensures
        narrow_exchange(r, NinaCommand::RequestHostByName),
        payloads(r.send.items()) == seq![name.spec_bytes()],
        r.recv.items() == seq![RecvParam::Ack],
{
    let r = Exchange {
        command: NinaCommand::RequestHostByName,
        send: Params::of(vec![SendParam::Bytes(str_bytes(name))]),
        recv: Params::of(vec![RecvParam::Ack]),
    };
    assert(payloads(r.send.items()) =~= seq![name.spec_bytes()]);
    r
}

/// Fetches the address the last lookup found.
pub fn fetch_host_exchange() -> (r: Exchange)
    ensures
        narrow_exchange(r, NinaCommand::GetHostByName),
        r.send.items().len() == 0,
        r.recv.items() == seq![RecvParam::ByteArray(4)],
{
    Exchange {
        command: NinaCommand::GetHostByName,
        send: Params::none(),
        recv: Params::of(vec![RecvParam::ByteArray(4)]),
    }
}

} // verus!

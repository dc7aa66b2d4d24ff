//! The STUN messages of NAT discovery (RFC 5389): the binding request that
//! is sent, and the reading of the binding response for the mapped address.

use super::{TransportError, TransportResult};
use vstd::prelude::*;
use vstd::string::StringExecFns;

verus! {

/// Length of a STUN header, in bytes.
pub const STUN_HEADER_LEN: usize = 20;

/// Length of a transaction identifier, in bytes.
pub const TRANSACTION_ID_LEN: usize = 12;

/// The message type of a binding response.
pub const BINDING_RESPONSE: u16 = 0x0101;

/// The attribute type of XOR-MAPPED-ADDRESS.
pub const XOR_MAPPED_ADDRESS: u16 = 0x0020;

/// The address family of IPv4 in an address attribute.
pub const FAMILY_IPV4: u8 = 0x01;

/// The first eight bytes of a binding request: the message type, a length
/// of zero and the magic cookie.
pub open spec fn binding_request_head() -> Seq<u8> {
    seq![0x00u8, 0x01u8, 0x00u8, 0x00u8, 0x21u8, 0x12u8, 0xa4u8, 0x42u8]
}

/// Calls `rand::random` for one byte. Nothing is claimed of the value.
#[verifier::external_body]
pub(crate) fn random_byte() -> u8 {
    rand::random()
}

/// A binding request with a random transaction identifier.
pub fn build_stun_binding_request() -> (request: Vec<u8>)
    ensures
        request@.len() == STUN_HEADER_LEN,
        request@.subrange(0, 8) == binding_request_head(),
{
    let mut id = [0u8; 12];
    let mut i: usize = 0;
    while i < TRANSACTION_ID_LEN
        invariant
            i <= TRANSACTION_ID_LEN,
        decreases TRANSACTION_ID_LEN - i,
    {
        id[i] = random_byte();
        i += 1;
    }
    let request = build_stun_binding_request_with(&id);
    assert(request@.subrange(0, 8) =~= binding_request_head());
    request
}

/// The binding request with the transaction identifier `id`.
pub fn build_stun_binding_request_with(id: &[u8; 12]) -> (request: Vec<u8>)
    ensures
        request@ == binding_request_head() + id@,
{
    let mut request: Vec<u8> = Vec::with_capacity(STUN_HEADER_LEN);
    request.push(0x00);
    request.push(0x01);
    request.push(0x00);
    request.push(0x00);
    request.push(0x21);
    request.push(0x12);
    request.push(0xa4);
    request.push(0x42);
    let mut i: usize = 0;
    while i < TRANSACTION_ID_LEN
        invariant
            i <= TRANSACTION_ID_LEN,
            request@ == binding_request_head() + id@.subrange(0, i as int),
        decreases TRANSACTION_ID_LEN - i,
    {
        request.push(id[i]);
        i += 1;
    }
    assert(id@.subrange(0, TRANSACTION_ID_LEN as int) =~= id@);
    request
}

/// A public IPv4 address and port, as a STUN server saw them.
#[derive(Debug, Clone, Copy, PartialEq, Eq)]
pub struct MappedAddress {
    pub ip: [u8; 4],
    pub port: u16,
}

/// What the reading of a response comes to.
pub enum StunReading {
    /// The response gives this address.
    Mapped(Seq<u8>, u16),
    /// The response is shorter than a header.
    TooShort,
    /// The message is not a binding response.
    NotBindingResponse,
    /// The mapped address is not an IPv4 address.
    NotIpv4,
    /// The response holds no mapped address.
    NoMappedAddress,
}

/// The 16-bit number that two bytes spell, the high byte first.
pub open spec fn be16(high: u8, low: u8) -> u16 {
    (high * 256 + low) as u16
}

/// `pos` rounded up to the next multiple of four.
pub open spec fn align4(pos: int) -> int {
    if pos % 4 == 0 {
        pos
    } else {
        pos + 4 - pos % 4
    }
}

/// The reading of the attributes of `data` from the position `pos` on.
///
/// Each attribute has four bytes of type and length, then its value, padded
/// to a multiple of four. An attribute that reaches past the end stops the
/// reading. The first XOR-MAPPED-ADDRESS of eight bytes or more decides: it
/// gives the port and, for the IPv4 family, the address, both masked with the
/// magic cookie.
pub open spec fn read_attributes(data: Seq<u8>, pos: int) -> StunReading
    decreases data.len() - pos,
{
    if pos < 0 || pos + 4 > data.len() {
        StunReading::NoMappedAddress
    } else {
        let attr_type = be16(data[pos], data[pos + 1]);
        let attr_len = be16(data[pos + 2], data[pos + 3]) as int;
        let value = pos + 4;
        if value + attr_len > data.len() {
            StunReading::NoMappedAddress
        } else if attr_type == XOR_MAPPED_ADDRESS && attr_len >= 8 {
            if data[value + 1] == FAMILY_IPV4 {
                StunReading::Mapped(
                    seq![
                        data[value + 4] ^ 0x21u8,
                        data[value + 5] ^ 0x12u8,
                        data[value + 6] ^ 0xa4u8,
                        data[value + 7] ^ 0x42u8,
                    ],
                    be16(data[value + 2], data[value + 3]) ^ 0x2112u16,
                )
            } else {
                StunReading::NotIpv4
            }
        } else {
            let next = align4(value + attr_len);
            if next > data.len() {
                StunReading::NoMappedAddress
            } else {
                read_attributes(data, next)
            }
        }
    }
}

/// The reading of a whole response: the header is checked, then the
/// attributes after it are read.
pub open spec fn read_response(data: Seq<u8>) -> StunReading {
    if data.len() < STUN_HEADER_LEN {
        StunReading::TooShort
    } else if be16(data[0], data[1]) != BINDING_RESPONSE {
        StunReading::NotBindingResponse
    } else {
        read_attributes(data, STUN_HEADER_LEN as int)
    }
}

/// The message that goes with a reading that gives no address.
pub open spec fn reading_text(reading: StunReading) -> Seq<char> {
    match reading {
        StunReading::Mapped(_, _) => Seq::empty(),
        StunReading::TooShort => "response too short"@,
        StunReading::NotBindingResponse => "not binding response"@,
        StunReading::NotIpv4 => "IPv6 not supported"@,
        StunReading::NoMappedAddress => "no XOR-MAPPED-ADDRESS"@,
    }
}

fn read_be16(high: u8, low: u8) -> (r: u16)
    ensures
        r == be16(high, low),
{
    high as u16 * 256 + low as u16
}

/// Reads the mapped address out of a binding response.
///
/// Fails with `NatTraversalFailed`, and the text of the reading, for every
/// response that gives no IPv4 address.
pub fn parse_stun_response(data: &[u8]) -> (r: TransportResult<MappedAddress>)
    ensures
        match r {
            Ok(mapped) => read_response(data@) == StunReading::Mapped(mapped.ip@, mapped.port),
            Err(TransportError::NatTraversalFailed(text)) => read_response(data@) !is Mapped
                && text@ == reading_text(read_response(data@)),
            Err(_) => false,
        },
{
    if data.len() < STUN_HEADER_LEN {
        return Err(TransportError::NatTraversalFailed(String::from_str("response too short")));
    }
    let msg_type = read_be16(data[0], data[1]);
    if msg_type != BINDING_RESPONSE {
        return Err(TransportError::NatTraversalFailed(String::from_str("not binding response")));
    }
    let mut pos: usize = STUN_HEADER_LEN;
    while pos <= data.len() && data.len() - pos >= 4
        invariant
            read_attributes(data@, pos as int) == read_response(data@),
        decreases data@.len() - pos,
    {
        let attr_type = read_be16(data[pos], data[pos + 1]);
        let attr_len = read_be16(data[pos + 2], data[pos + 3]) as usize;
        let value = pos + 4;
        if attr_len > data.len() - value {
            return Err(
                TransportError::NatTraversalFailed(String::from_str("no XOR-MAPPED-ADDRESS")),
            );
        }
        if attr_type == XOR_MAPPED_ADDRESS && attr_len >= 8 {
            let family = data[value + 1];
            let port = read_be16(data[value + 2], data[value + 3]) ^ 0x2112;
            if family == FAMILY_IPV4 {
                let ip = [
                    data[value + 4] ^ 0x21,
                    data[value + 5] ^ 0x12,
                    data[value + 6] ^ 0xa4,
                    data[value + 7] ^ 0x42,
                ];
                assert(ip@ =~= seq![
                    data@[value + 4] ^ 0x21u8,
                    data@[value + 5] ^ 0x12u8,
                    data@[value + 6] ^ 0xa4u8,
                    data@[value + 7] ^ 0x42u8,
                ]);
                return Ok(MappedAddress { ip, port });
            } else {
                return Err(
                    TransportError::NatTraversalFailed(String::from_str("IPv6 not supported")),
                );
            }
        }
        let end = value + attr_len;
        let rem = end % 4;
        if rem != 0 && data.len() - end < 4 - rem {
            // The padding reaches past the end: nothing is left to read.
            return Err(
                TransportError::NatTraversalFailed(String::from_str("no XOR-MAPPED-ADDRESS")),
            );
        }
        pos = if rem == 0 {
            end
        } else {
            end + (4 - rem)
        };
    }
    Err(TransportError::NatTraversalFailed(String::from_str("no XOR-MAPPED-ADDRESS")))
}

} // verus!

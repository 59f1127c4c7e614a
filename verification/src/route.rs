//! Extracting the default gateway from one routing-table message.
//!
//! The kernel answers a route-dump request with messages made of a table
//! identifier and a list of typed attributes. Only the main table matters,
//! and of its attributes only the gateway one; a gateway payload of four
//! bytes is an IPv4 address, one of sixteen bytes an IPv6 address. The
//! binary decodes the wire format through its routing-socket library and
//! hands the message over in the plain form below.

use crate::addr::IpAddress;
use vstd::prelude::*;

verus! {

/// Which routing table a message belongs to: the main table, or any other.
#[derive(Clone, Copy, PartialEq, Eq, Structural, Debug)]
pub enum RouteTable {
    Main,
    Other,
}

/// The type tag of a route attribute: the gateway, or any other kind.
#[derive(Clone, Copy, PartialEq, Eq, Structural, Debug)]
pub enum RouteAttrKind {
    Gateway,
    Other,
}

/// One (type tag, raw payload) attribute of a routing message.
#[derive(Clone, Debug)]
pub struct RouteAttr {
    pub kind: RouteAttrKind,
    pub payload: Vec<u8>,
}

/// One routing-table message: its table and its ordered attribute list.
#[derive(Clone, Debug)]
pub struct RouteMessage {
    pub table: RouteTable,
    pub attrs: Vec<RouteAttr>,
}

/// The address held by a gateway payload: four bytes give an IPv4 address,
/// sixteen give an IPv6 address whose groups pair the bytes big-endian;
/// any other length decodes to nothing.
pub open spec fn decode_gateway_payload(p: Seq<u8>) -> Option<IpAddress> {
    if p.len() == 4 {
        Some(IpAddress::V4(p[0], p[1], p[2], p[3]))
    } else if p.len() == 16 {
        Some(
            IpAddress::V6(
                (p[0] * 256 + p[1]) as u16,
                (p[2] * 256 + p[3]) as u16,
                (p[4] * 256 + p[5]) as u16,
                (p[6] * 256 + p[7]) as u16,
                (p[8] * 256 + p[9]) as u16,
                (p[10] * 256 + p[11]) as u16,
                (p[12] * 256 + p[13]) as u16,
                (p[14] * 256 + p[15]) as u16,
            ),
        )
    } else {
        None
    }
}

/// Whether `a` is a gateway attribute whose payload decodes to an address.
pub open spec fn is_decodable_gateway(a: RouteAttr) -> bool {
    a.kind == RouteAttrKind::Gateway && decode_gateway_payload(a.payload@) is Some
}

/// The gateway named by an attribute list: the last attribute that is a
/// decodable gateway wins; with none, there is no gateway.
pub open spec fn gateway_of_attrs(attrs: Seq<RouteAttr>) -> Option<IpAddress>
    decreases attrs.len(),
{
    if attrs.len() == 0 {
        None
    } else if is_decodable_gateway(attrs.last()) {
        decode_gateway_payload(attrs.last().payload@)
    } else {
        gateway_of_attrs(attrs.drop_last())
    }
}

/// The gateway of a routing message: a message outside the main table
/// contributes none, whatever its attributes hold; one in the main table
/// contributes the gateway its attribute list names.
pub open spec fn route_gateway(m: RouteMessage) -> Option<IpAddress> {
    if m.table == RouteTable::Main {
        gateway_of_attrs(m.attrs@)
    } else {
        None
    }
}

/// A message outside the main table never yields a gateway, regardless of
/// its attribute contents.
pub proof fn lemma_non_main_no_gateway(m: RouteMessage)
    requires
        m.table != RouteTable::Main,
    ensures
        route_gateway(m) is None,
{
}

/// In the main table, a lone decodable gateway attribute decides the
/// result: the message yields exactly that attribute's decoded address.
pub proof fn lemma_single_gateway_wins(m: RouteMessage, i: int)
    requires
        m.table == RouteTable::Main,
        0 <= i < m.attrs@.len(),
        is_decodable_gateway(m.attrs@[i]),
        forall|j: int|
            0 <= j < m.attrs@.len() && j != i ==> !is_decodable_gateway(m.attrs@[j]),
    ensures
        route_gateway(m) == decode_gateway_payload(m.attrs@[i].payload@),
{
    lemma_single_gateway_of_attrs(m.attrs@, i);
}

proof fn lemma_single_gateway_of_attrs(attrs: Seq<RouteAttr>, i: int)
    requires
        0 <= i < attrs.len(),
        is_decodable_gateway(attrs[i]),
        forall|j: int| 0 <= j < attrs.len() && j != i ==> !is_decodable_gateway(attrs[j]),
    ensures
        gateway_of_attrs(attrs) == decode_gateway_payload(attrs[i].payload@),
    decreases attrs.len(),
{
    if i == attrs.len() - 1 {
    } else {
        lemma_single_gateway_of_attrs(attrs.drop_last(), i);
    }
}

fn decode_gateway_bytes(p: &Vec<u8>) -> (r: Option<IpAddress>)
    ensures
        r == decode_gateway_payload(p@),
{
    if p.len() == 4 {
        Some(IpAddress::V4(p[0], p[1], p[2], p[3]))
    } else if p.len() == 16 {
        Some(
            IpAddress::V6(
                (p[0] as u16) * 256 + (p[1] as u16),
                (p[2] as u16) * 256 + (p[3] as u16),
                (p[4] as u16) * 256 + (p[5] as u16),
                (p[6] as u16) * 256 + (p[7] as u16),
                (p[8] as u16) * 256 + (p[9] as u16),
                (p[10] as u16) * 256 + (p[11] as u16),
                (p[12] as u16) * 256 + (p[13] as u16),
                (p[14] as u16) * 256 + (p[15] as u16),
            ),
        )
    } else {
        None
    }
}

/// The gateway address of a default-route message, exactly as
/// [`route_gateway`] states it: `Some` if and only if the message is in
/// the main table and its attribute list holds a gateway attribute whose
/// payload is four or sixteen bytes, the last such attribute winning.
pub fn default_route_gateway(m: &RouteMessage) -> (r: Option<IpAddress>)
    ensures
        r == route_gateway(*m),
{
    if m.table != RouteTable::Main {
        return None;
    }
    let mut gateway: Option<IpAddress> = None;
    let n = m.attrs.len();
    for i in 0..n
        invariant
            n == m.attrs@.len(),
            gateway == gateway_of_attrs(m.attrs@.take(i as int)),
    {
        match m.attrs[i].kind {
            RouteAttrKind::Gateway => {
                let decoded = decode_gateway_bytes(&m.attrs[i].payload);
                if decoded.is_some() {
                    gateway = decoded;
                }
            },
            RouteAttrKind::Other => {},
        }
        proof {
            let taken = m.attrs@.take(i + 1);
            assert(taken.drop_last() =~= m.attrs@.take(i as int));
            assert(taken.last() == m.attrs@[i as int]);
        }
    }
    proof {
        assert(m.attrs@.take(n as int) =~= m.attrs@);
    }
    gateway
}

} // verus!

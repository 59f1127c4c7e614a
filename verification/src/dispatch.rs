//! Building the set of resolvers to query.
//!
//! Every run queries the same five well-known public resolvers, in a
//! fixed order; if default-gateway discovery succeeded, the gateway is
//! appended last as a sixth. Nothing is deduplicated: a gateway equal to
//! one of the five is queried twice. The binary then launches one query
//! per entry and joins them all.

use crate::addr::IpAddress;
use vstd::prelude::*;

verus! {

/// The five fixed resolvers, in the order they are always queried:
/// 1.1.1.1, 8.8.8.8, 9.9.9.9, 37.235.1.174, 208.67.222.222.
pub open spec fn fixed_resolver_list() -> Seq<IpAddress> {
    seq![
        IpAddress::V4(1, 1, 1, 1),
        IpAddress::V4(8, 8, 8, 8),
        IpAddress::V4(9, 9, 9, 9),
        IpAddress::V4(37, 235, 1, 174),
        IpAddress::V4(208, 67, 222, 222),
    ]
}

/// The resolver set for one run: the fixed five, then the discovered
/// gateway if there is one.
pub open spec fn resolver_set(gateway: Option<IpAddress>) -> Seq<IpAddress> {
    match gateway {
        Some(g) => fixed_resolver_list().push(g),
        None => fixed_resolver_list(),
    }
}

/// The five fixed resolver addresses, as [`fixed_resolver_list`] states
/// them.
pub fn fixed_resolvers() -> (v: Vec<IpAddress>)
    ensures
        v@ == fixed_resolver_list(),
{
    let mut v: Vec<IpAddress> = Vec::new();
    v.push(IpAddress::V4(1, 1, 1, 1));
    v.push(IpAddress::V4(8, 8, 8, 8));
    v.push(IpAddress::V4(9, 9, 9, 9));
    v.push(IpAddress::V4(37, 235, 1, 174));
    v.push(IpAddress::V4(208, 67, 222, 222));
    proof {
        assert(v@ =~= fixed_resolver_list());
    }
    v
}

/// The resolver set for one run, as [`resolver_set`] states it: always
/// the five fixed addresses first, in their fixed order, and exactly six
/// entries with the gateway last if discovery succeeded, five otherwise.
pub fn build_resolver_set(gateway: Option<IpAddress>) -> (v: Vec<IpAddress>)
    ensures
        v@ == resolver_set(gateway),
        v@.len() == if gateway is Some { 6int } else { 5int },
        v@.subrange(0, 5) == fixed_resolver_list(),
        gateway is Some ==> v@.last() == gateway.unwrap(),
{
    let mut v = fixed_resolvers();
    match gateway {
        Some(g) => v.push(g),
        None => {},
    }
    proof {
        assert(v@.subrange(0, 5) =~= fixed_resolver_list());
    }
    v
}

} // verus!

//! Checks on the address texts of a connection update: networks in CIDR
//! notation and plain IP addresses.
use vstd::prelude::*;
use crate::bus::NetworkError;
use crate::model::{Connection, NetInfo};

verus! {

/// What ipnet reads from a network in CIDR notation: whether it is an IPv6
/// network, its address as text, and its prefix length; `None` where the
/// text is no such network.
pub uninterp spec fn cidr_parts(s: Seq<char>) -> Option<(bool, Seq<char>, u8)>;

/// The text is an IPv4 or IPv6 address.
pub uninterp spec fn is_ip_text(s: Seq<char>) -> bool;

/// A network read from CIDR notation.
pub struct CidrParts {
    pub is_v6: bool,
    pub addr: String,
    pub prefix_len: u8,
}

pub open spec fn parts_view(p: CidrParts) -> (bool, Seq<char>, u8) {
    (p.is_v6, p.addr@, p.prefix_len)
}

/// Relies on ipnet's `IpNet::from_str`, `IpNet::addr` and
/// `IpNet::prefix_len`, and on the address's text form: the result depends
/// on the text alone.
#[verifier::external_body]
fn parse_cidr(s: &str) -> (r: Option<CidrParts>)
    ensures
        r is None <==> cidr_parts(s@) is None,
        r matches Some(p) ==> cidr_parts(s@) == Some(parts_view(p)),
{
    let net: ipnet::IpNet = s.parse().ok()?;
    let is_v6 = match net {
        ipnet::IpNet::V4(_) => false,
        ipnet::IpNet::V6(_) => true,
    };
    Some(CidrParts { is_v6, addr: net.addr().to_string(), prefix_len: net.prefix_len() })
}

/// Relies on `IpAddr::from_str`: whether the text reads as an address
/// depends on the text alone.
#[verifier::external_body]
fn parse_ip(s: &str) -> (r: bool)
    ensures
        r == is_ip_text(s@),
{
    s.parse::<core::net::IpAddr>().is_ok()
}

pub open spec fn all_cidr(v: Seq<String>) -> bool {
    forall|i: int| 0 <= i < v.len() ==> cidr_parts((#[trigger] v[i])@) is Some
}

pub open spec fn all_ip(v: Seq<String>) -> bool {
    forall|i: int| 0 <= i < v.len() ==> is_ip_text((#[trigger] v[i])@)
}

/// Every address text of the configuration reads as what it stands for.
pub open spec fn valid_net_info(info: NetInfo) -> bool {
    &&& all_cidr(info.addresses@)
    &&& all_ip(info.dns@)
    &&& info.gateway matches Some(g) ==> is_ip_text(g@)
    &&& forall|i: int| 0 <= i < info.routes@.len() ==> {
        &&& cidr_parts((#[trigger] info.routes@[i]).dest@) is Some
        &&& info.routes@[i].next_hop matches Some(h) ==> is_ip_text(h@)
    }
}

/// Reads each network of the list, failing with the first text that is
/// none.
pub fn address_parts(addresses: &Vec<String>) -> (r: Result<Vec<CidrParts>, NetworkError>)
    ensures
        r is Ok <==> all_cidr(addresses@),
        r matches Err(e) ==> e is InvalidArgument,
        r matches Ok(v) ==> v@.len() == addresses@.len() && forall|i: int| 0 <= i < v@.len() ==>
            cidr_parts(addresses@[i]@) == Some(parts_view(#[trigger] v@[i])),
{
    let mut out: Vec<CidrParts> = Vec::new();
    let mut i: usize = 0;
    while i < addresses.len()
        invariant
            i <= addresses@.len(),
            out@.len() == i,
            forall|j: int| 0 <= j < i ==> cidr_parts(addresses@[j]@) == Some(parts_view(#[trigger] out@[j])),
        decreases addresses@.len() - i,
    {
        match parse_cidr(addresses[i].as_str()) {
            Some(p) => out.push(p),
            None => {
                return Err(NetworkError::InvalidArgument(addresses[i].clone()));
            },
        }
        i = i + 1;
    }
    assert forall|j: int| 0 <= j < addresses@.len() implies cidr_parts((#[trigger] addresses@[j])@) is Some by {
        assert(cidr_parts(addresses@[j]@) == Some(parts_view(out@[j])));
    }
    Ok(out)
}

fn check_ips(v: &Vec<String>) -> (r: Result<(), NetworkError>)
    ensures
        r is Ok <==> all_ip(v@),
        r matches Err(e) ==> e is InvalidArgument,
{
    let mut i: usize = 0;
    while i < v.len()
        invariant
            i <= v@.len(),
            forall|j: int| 0 <= j < i ==> is_ip_text((#[trigger] v@[j])@),
        decreases v@.len() - i,
    {
        if !parse_ip(v[i].as_str()) {
            return Err(NetworkError::InvalidArgument(v[i].clone()));
        }
        i = i + 1;
    }
    Ok(())
}

fn check_opt_ip(s: &Option<String>) -> (r: Result<(), NetworkError>)
    ensures
        r is Ok <==> (s matches Some(g) ==> is_ip_text(g@)),
        r matches Err(e) ==> e is InvalidArgument,
{
    match s {
        Some(g) => {
            if parse_ip(g.as_str()) {
                Ok(())
            } else {
                Err(NetworkError::InvalidArgument(g.clone()))
            }
        },
        None => Ok(()),
    }
}

/// Checks every address text of an address configuration, failing with
/// `InvalidArgument` and the first text that does not read.
pub fn check_net_info(info: &NetInfo) -> (r: Result<(), NetworkError>)
    ensures
        r is Ok <==> valid_net_info(*info),
        r matches Err(e) ==> e is InvalidArgument,
{
    match address_parts(&info.addresses) {
        Ok(_) => {},
        Err(e) => {
            return Err(e);
        },
    }
    match check_ips(&info.dns) {
        Ok(_) => {},
        Err(e) => {
            return Err(e);
        },
    }
    match check_opt_ip(&info.gateway) {
        Ok(_) => {},
        Err(e) => {
            return Err(e);
        },
    }
    let mut i: usize = 0;
    while i < info.routes.len()
        invariant
            i <= info.routes@.len(),
            forall|j: int| 0 <= j < i ==> {
                &&& cidr_parts((#[trigger] info.routes@[j]).dest@) is Some
                &&& info.routes@[j].next_hop matches Some(h) ==> is_ip_text(h@)
            },
        decreases info.routes@.len() - i,
    {
        let route = &info.routes[i];
        if parse_cidr(route.dest.as_str()).is_none() {
            return Err(NetworkError::InvalidArgument(route.dest.clone()));
        }
        match check_opt_ip(&route.next_hop) {
            Ok(_) => {},
            Err(e) => {
                return Err(e);
            },
        }
        i = i + 1;
    }
    Ok(())
}

/// Checks both address configurations of a connection update.
pub fn check_connection(c: &Connection) -> (r: Result<(), NetworkError>)
    ensures
        r is Ok <==> valid_net_info(c.ip4info) && valid_net_info(c.ip6info),
        r matches Err(e) ==> e is InvalidArgument,
{
    match check_net_info(&c.ip4info) {
        Ok(_) => check_net_info(&c.ip6info),
        Err(e) => Err(e),
    }
}

/// The IP version of a kernel address family: 2 is IPv4 and 10 is IPv6;
/// other families have none.
pub fn ipver_human(family: i32) -> (r: Option<i32>)
    ensures
        family == 2 ==> r == Some(4i32),
        family == 10 ==> r == Some(6i32),
        family != 2 && family != 10 ==> r is None,
{
    if family == 2 {
        Some(4)
    } else if family == 10 {
        Some(6)
    } else {
        None
    }
}

} // verus!

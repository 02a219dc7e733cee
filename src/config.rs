//! The engine's own endpoint, read from its configured MAC address and
//! IPv4 network.
use vstd::prelude::*;
use crate::connection::L234Address;
use crate::headers::{octets_value, MacAddr};

verus! {

/// The octets that `eui48::MacAddress::parse_str` reads from `s`, if it
/// accepts `s`.
pub uninterp spec fn mac_octets_of(s: Seq<char>) -> Option<[u8; 6]>;

/// The address of the IPv4 network that `ipnet` reads from `s`, if it
/// accepts `s`.
pub uninterp spec fn ipv4net_addr_of(s: Seq<char>) -> Option<u32>;

/// Relies on eui48::MacAddress::parse_str: whether it accepts a string and
/// the octets it reads depend on the string alone.
#[verifier::external_body]
fn parse_mac_octets(s: &str) -> (r: Option<[u8; 6]>)
    ensures
        r == mac_octets_of(s@),
{
    eui48::MacAddress::parse_str(s).ok().map(|m| m.to_array())
}

/// Relies on ipnet's `FromStr` for `Ipv4Net`, and its `addr`: whether it
/// accepts a string and the address it reads depend on the string alone.
#[verifier::external_body]
fn parse_ipv4net_addr(s: &str) -> (r: Option<u32>)
    ensures
        r == ipv4net_addr_of(s@),
{
    s.parse::<ipnet::Ipv4Net>().ok().map(|n| u32::from(n.addr()))
}

/// Why the engine's endpoint could not be configured.
#[derive(Clone, Copy, Debug, PartialEq, Eq, Structural)]
pub enum ConfigError {
    BadMac,
    BadIpNet,
}

/// The engine's endpoint from a parsed MAC address and network address.
pub fn engine_address_from(mac: Option<[u8; 6]>, addr: Option<u32>, port: u16) -> (r: Result<
    L234Address,
    ConfigError,
>)
    ensures
        mac is None ==> r == Err::<L234Address, ConfigError>(ConfigError::BadMac),
        mac is Some && addr is None ==> r == Err::<L234Address, ConfigError>(ConfigError::BadIpNet),
        mac is Some && addr is Some ==> r is Ok && r->Ok_0.mac.bits == octets_value(mac.unwrap())
            && r->Ok_0.ip == addr.unwrap() && r->Ok_0.port == port && r->Ok_0.server_id@
            == "TrafficEngine"@,
{
    match mac {
        None => Err(ConfigError::BadMac),
        Some(o) => match addr {
            None => Err(ConfigError::BadIpNet),
            Some(ip) => Ok(
                L234Address {
                    mac: MacAddr::from_octets(o),
                    ip,
                    port,
                    server_id: "TrafficEngine".to_owned(),
                },
            ),
        },
    }
}

/// The engine's endpoint from its configured MAC address, IPv4 network in
/// CIDR notation (its address is taken) and port.
pub fn engine_address(mac: &str, ipnet: &str, port: u16) -> (r: Result<L234Address, ConfigError>)
    ensures
        mac_octets_of(mac@) is None ==> r == Err::<L234Address, ConfigError>(ConfigError::BadMac),
        mac_octets_of(mac@) is Some && ipv4net_addr_of(ipnet@) is None ==> r == Err::<
            L234Address,
            ConfigError,
        >(ConfigError::BadIpNet),
        mac_octets_of(mac@) is Some && ipv4net_addr_of(ipnet@) is Some ==> r is Ok
            && r->Ok_0.mac.bits == octets_value(mac_octets_of(mac@).unwrap()) && r->Ok_0.ip
            == ipv4net_addr_of(ipnet@).unwrap() && r->Ok_0.port == port && r->Ok_0.server_id@
            == "TrafficEngine"@,
{
    let octets = parse_mac_octets(mac);
    let addr = parse_ipv4net_addr(ipnet);
    engine_address_from(octets, addr, port)
}

} // verus!

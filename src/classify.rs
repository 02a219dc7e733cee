//! The layer 2 stages in front of the state machine: which frames the
//! pipeline accepts, and which of those take the TCP path.
use vstd::prelude::*;
use crate::headers::MacAddr;

verus! {

/// IP protocol number of TCP.
pub const PROTO_TCP: u8 = 6;

/// The addresses, ports and protocol of an IPv4 packet.
#[derive(Clone, Copy, Debug, PartialEq, Eq, Structural)]
pub struct Ipv4Flow {
    pub src_ip: u32,
    pub dst_ip: u32,
    pub src_port: u16,
    pub dst_port: u16,
    pub proto: u8,
}

/// The big-endian 16-bit number at byte `i` of `b`.
pub open spec fn be16(b: Seq<u8>, i: int) -> nat {
    b[i] as nat * 256 + b[i + 1] as nat
}

/// The big-endian 32-bit number at byte `i` of `b`.
pub open spec fn be32(b: Seq<u8>, i: int) -> nat {
    be16(b, i) * 65536 + be16(b, i + 2)
}

/// The header length, in bytes, that the first byte of an IPv4 header gives.
pub open spec fn spec_header_len(b: Seq<u8>) -> int {
    (b[0] % 16) as int * 4
}

/// The flow of IPv4 packet `b`: `None` unless `b` starts with a version 4
/// header of at least 20 bytes that is followed by two port numbers.
pub open spec fn spec_extract_flow(b: Seq<u8>) -> Option<Ipv4Flow> {
    if b.len() < 20 || b[0] / 16 != 4 || spec_header_len(b) < 20 || b.len() < spec_header_len(b) + 4 {
        None
    } else {
        let hl = spec_header_len(b);
        Some(
            Ipv4Flow {
                src_ip: be32(b, 12) as u32,
                dst_ip: be32(b, 16) as u32,
                src_port: be16(b, hl) as u16,
                dst_port: be16(b, hl + 2) as u16,
                proto: b[9],
            },
        )
    }
}

fn read_be16(b: &[u8], i: usize) -> (r: u16)
    requires
        i + 2 <= b@.len(),
    ensures
        r == be16(b@, i as int),
{
    b[i] as u16 * 256 + b[i + 1] as u16
}

fn read_be32(b: &[u8], i: usize) -> (r: u32)
    requires
        i <= 16,
        i + 4 <= b@.len(),
    ensures
        r == be32(b@, i as int),
{
    read_be16(b, i) as u32 * 65536 + read_be16(b, i + 2) as u32
}

/// Reads the flow of the IPv4 packet `b`.
pub fn ipv4_extract_flow(b: &[u8]) -> (r: Option<Ipv4Flow>)
    ensures
        r == spec_extract_flow(b@),
{
    if b.len() < 20 || b[0] / 16 != 4 {
        return None;
    }
    let hl: usize = (b[0] % 16) as usize * 4;
    if hl < 20 || b.len() < hl + 4 {
        return None;
    }
    Some(
        Ipv4Flow {
            src_ip: read_be32(b, 12),
            dst_ip: read_be32(b, 16),
            src_port: read_be16(b, hl),
            dst_port: read_be16(b, hl + 2),
            proto: b[9],
        },
    )
}

/// Accepted from the NIC: frames to our address, and multicast or broadcast.
pub open spec fn spec_l2_accepts(dst: MacAddr, me: MacAddr) -> bool {
    dst == me || dst.spec_is_multicast() || dst.spec_is_broadcast()
}

/// Whether a frame to `dst` is accepted by a pipeline with address `me`.
pub fn l2_filter(dst: &MacAddr, me: &MacAddr) -> (r: bool)
    ensures
        r == spec_l2_accepts(*dst, *me),
{
    *dst == *me || dst.is_multicast() || dst.is_broadcast()
}

/// Group 1 for TCP to our address on our own port or on a proxy port
/// (at least `tcp_min_port`); group 0, for the kernel, otherwise.
pub open spec fn spec_l2_group(b: Seq<u8>, me_ip: u32, me_port: u16, tcp_min_port: u16) -> usize {
    match spec_extract_flow(b) {
        None => 0,
        Some(fl) => if fl.dst_ip == me_ip && fl.proto == PROTO_TCP && (fl.dst_port == me_port
            || fl.dst_port >= tcp_min_port) {
            1
        } else {
            0
        },
    }
}

/// The group of the IPv4 packet `b` (the frame's payload): 1 takes the TCP
/// path, 0 goes to the kernel.
pub fn l2_group(b: &[u8], me_ip: u32, me_port: u16, tcp_min_port: u16) -> (r: usize)
    ensures
        r == spec_l2_group(b@, me_ip, me_port, tcp_min_port),
{
    match ipv4_extract_flow(b) {
        None => 0,
        Some(fl) => {
            if fl.dst_ip == me_ip && fl.proto == PROTO_TCP && (fl.dst_port == me_port || fl.dst_port
                >= tcp_min_port) {
                1
            } else {
                0
            }
        },
    }
}

/// The pipeline on receive queue 0 also forwards the kernel's frames.
pub fn is_kni_core(rxq: u16) -> (r: bool)
    ensures
        r == (rxq == 0),
{
    rxq == 0
}

} // verus!

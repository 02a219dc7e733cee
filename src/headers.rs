//! Parsed Ethernet, IPv4 and TCP headers of one frame, and their checksums.
use vstd::prelude::*;
use crate::checksum::{checksum_from_sum, internet_checksum, word_sum32};

verus! {

/// A 48-bit MAC address, first octet most significant.
#[derive(Clone, Copy, Debug, PartialEq, Eq, Structural)]
pub struct MacAddr {
    pub bits: u64,
}

pub const MAC_LIMIT: u64 = 0x1_0000_0000_0000;

pub const MAC_BROADCAST: u64 = 0xFFFF_FFFF_FFFF;

/// The value of six octets read most significant first.
pub open spec fn octets_value(o: [u8; 6]) -> nat {
    ((((o[0] as nat * 256 + o[1] as nat) * 256 + o[2] as nat) * 256 + o[3] as nat) * 256
        + o[4] as nat) * 256 + o[5] as nat
}

impl MacAddr {
    pub open spec fn wf(&self) -> bool {
        self.bits < MAC_LIMIT
    }

    pub open spec fn spec_is_multicast(&self) -> bool {
        (self.bits / 0x100_0000_0000) % 2 == 1
    }

    pub open spec fn spec_is_broadcast(&self) -> bool {
        self.bits == MAC_BROADCAST
    }

    pub fn from_octets(o: [u8; 6]) -> (r: MacAddr)
        ensures
            r.wf(),
            r.bits == octets_value(o),
    {
        let v: u64 = ((((o[0] as u64 * 256 + o[1] as u64) * 256 + o[2] as u64) * 256 + o[3] as u64)
            * 256 + o[4] as u64) * 256 + o[5] as u64;
        MacAddr { bits: v }
    }

    /// The group bit (least significant bit of the first octet) is set.
    pub fn is_multicast(&self) -> (r: bool)
        ensures
            r == self.spec_is_multicast(),
    {
        (self.bits / 0x100_0000_0000) % 2 == 1
    }

    /// All 48 bits are set.
    pub fn is_broadcast(&self) -> (r: bool)
        ensures
            r == self.spec_is_broadcast(),
    {
        self.bits == MAC_BROADCAST
    }
}

/// Ethernet II header.
#[derive(Clone, Copy, Debug, PartialEq, Eq, Structural)]
pub struct MacHeader {
    pub dst: MacAddr,
    pub src: MacAddr,
    pub etype: u16,
}

/// IPv4 header without options.
#[derive(Clone, Copy, Debug, PartialEq, Eq, Structural)]
pub struct IpHeader {
    pub version: u8,
    pub ihl: u8,
    pub tos: u8,
    pub length: u16,
    pub id: u16,
    pub flags: u8,
    pub frag_offset: u16,
    pub ttl: u8,
    pub protocol: u8,
    pub checksum: u16,
    pub src: u32,
    pub dst: u32,
}

/// The sum of the header's 16-bit words, leaving out the checksum word.
pub open spec fn ip_word_sum(h: IpHeader) -> nat {
    ((h.version % 16) as nat * 4096 + (h.ihl % 16) as nat * 256 + h.tos as nat) + h.length as nat
        + h.id as nat + ((h.flags % 8) as nat * 8192 + (h.frag_offset % 8192) as nat) + (
    h.ttl as nat * 256 + h.protocol as nat) + word_sum32(h.src) + word_sum32(h.dst)
}

/// The header checksum that a from-scratch computation gives.
pub open spec fn ip_header_checksum(h: IpHeader) -> int {
    internet_checksum(ip_word_sum(h))
}

pub open spec fn ip_checksum_valid(h: IpHeader) -> bool {
    h.checksum as int == ip_header_checksum(h)
}

impl IpHeader {
    /// Recomputes the header checksum from scratch.
    pub fn update_checksum(&mut self)
        ensures
            ip_checksum_valid(*final(self)),
            *final(self) == (IpHeader { checksum: final(self).checksum, ..*old(self) }),
    {
        let w0: u64 = (self.version % 16) as u64 * 4096 + (self.ihl % 16) as u64 * 256
            + self.tos as u64;
        let w3: u64 = (self.flags % 8) as u64 * 8192 + (self.frag_offset % 8192) as u64;
        let w4: u64 = self.ttl as u64 * 256 + self.protocol as u64;
        let s: u64 = w0 + self.length as u64 + self.id as u64 + w3 + w4 + word32(self.src) + word32(
            self.dst,
        );
        self.checksum = checksum_from_sum(s);
    }

    /// Decrements the time to live, staying at zero, and recomputes the
    /// header checksum.
    pub fn decrement_ttl(&mut self)
        ensures
            final(self).ttl == if old(self).ttl >= 1 { (old(self).ttl - 1) as u8 } else { 0u8 },
            ip_checksum_valid(*final(self)),
            *final(self) == (IpHeader {
                ttl: final(self).ttl,
                checksum: final(self).checksum,
                ..*old(self)
            }),
    {
        if self.ttl >= 1 {
            self.ttl = self.ttl - 1;
        }
        self.update_checksum();
    }
}

/// TCP header without options; options, if any, lead the payload.
#[derive(Clone, Copy, Debug, PartialEq, Eq, Structural)]
pub struct TcpHeader {
    pub src_port: u16,
    pub dst_port: u16,
    pub seq_num: u32,
    pub ack_num: u32,
    pub data_offset: u8,
    pub ns: bool,
    pub cwr: bool,
    pub ece: bool,
    pub urg: bool,
    pub ack: bool,
    pub psh: bool,
    pub rst: bool,
    pub syn: bool,
    pub fin: bool,
    pub window: u16,
    pub checksum: u16,
    pub urgent: u16,
}

/// `v` where flag `b` is set, else zero.
#[verifier::opaque]
pub open spec fn flag_value(b: bool, v: nat) -> nat {
    if b {
        v
    } else {
        0
    }
}

/// The 16-bit word holding data offset and flags.
pub open spec fn tcp_flags_word(t: TcpHeader) -> nat {
    (t.data_offset % 16) as nat * 4096 + flag_value(t.ns, 256) + flag_value(t.cwr, 128)
        + flag_value(t.ece, 64) + flag_value(t.urg, 32) + flag_value(t.ack, 16) + flag_value(t.psh, 8)
        + flag_value(t.rst, 4) + flag_value(t.syn, 2) + flag_value(t.fin, 1)
}

/// The sum of the TCP header's 16-bit words, leaving out the checksum word.
pub open spec fn tcp_header_word_sum(t: TcpHeader) -> nat {
    t.src_port as nat + t.dst_port as nat + word_sum32(t.seq_num) + word_sum32(t.ack_num)
        + tcp_flags_word(t) + t.window as nat + t.urgent as nat
}

/// The sum of the big-endian 16-bit words of `p` from byte `i` on; an odd
/// last byte is padded with zero.
pub open spec fn bytes_word_sum(p: Seq<u8>, i: int) -> nat
    decreases p.len() - i,
{
    if i < 0 || i >= p.len() {
        0
    } else if i + 1 == p.len() {
        p[i] as nat * 256
    } else {
        p[i] as nat * 256 + p[i + 1] as nat + bytes_word_sum(p, i + 2)
    }
}

fn bit_value(b: bool, v: u64) -> (r: u64)
    ensures
        r == flag_value(b, v as nat),
        r <= v,
{
    reveal(flag_value);
    if b {
        v
    } else {
        0
    }
}

fn flags_word(t: &TcpHeader) -> (r: u64)
    ensures
        r == tcp_flags_word(*t),
        r < 65536,
{
    let a = bit_value(t.ns, 256);
    let b = bit_value(t.cwr, 128);
    let c = bit_value(t.ece, 64);
    let d = bit_value(t.urg, 32);
    let e = bit_value(t.ack, 16);
    let f = bit_value(t.psh, 8);
    let g = bit_value(t.rst, 4);
    let h = bit_value(t.syn, 2);
    let i = bit_value(t.fin, 1);
    let off: u64 = (t.data_offset % 16) as u64;
    assert(off <= 15);
    off * 4096 + a + b + c + d + e + f + g + h + i
}

fn word32(v: u32) -> (r: u64)
    ensures
        r == word_sum32(v),
        r < 2 * 65536,
{
    reveal(word_sum32);
    (v / 65536) as u64 + (v % 65536) as u64
}

fn tcp_header_sum(t: &TcpHeader) -> (r: u64)
    ensures
        r == tcp_header_word_sum(*t),
        r <= 20 * 65536,
{
    let fl = flags_word(t);
    let sq = word32(t.seq_num);
    let ak = word32(t.ack_num);
    t.src_port as u64 + t.dst_port as u64 + sq + ak + fl + t.window as u64 + t.urgent as u64
}

/// The sum of the big-endian 16-bit words of `p`.
pub fn bytes_sum(p: &Vec<u8>) -> (r: u64)
    requires
        p@.len() <= MAX_PAYLOAD,
    ensures
        r == bytes_word_sum(p@, 0),
        r <= p@.len() * 65535,
{
    let n = p.len();
    let mut acc: u64 = 0;
    let mut i: usize = 0;
    while i < n
        invariant
            n == p@.len(),
            n <= MAX_PAYLOAD,
            i <= n,
            acc <= i as nat * 65535,
            acc + bytes_word_sum(p@, i as int) == bytes_word_sum(p@, 0),
        decreases n - i,
    {
        if i + 1 == n {
            acc = acc + p[i] as u64 * 256;
            i = i + 1;
        } else {
            acc = acc + p[i] as u64 * 256 + p[i + 1] as u64;
            i = i + 2;
        }
    }
    acc
}

/// A parsed TCP/IPv4 frame: its three headers and the bytes behind them.
#[derive(Clone, Debug)]
pub struct Frame {
    pub mac: MacHeader,
    pub ip: IpHeader,
    pub tcp: TcpHeader,
    pub payload: Vec<u8>,
}

/// The largest payload whose segment length fits the pseudo-header.
pub const MAX_PAYLOAD: usize = 65515;

impl Frame {
    pub open spec fn wf(&self) -> bool {
        self.payload@.len() <= MAX_PAYLOAD
    }

    /// The length of the TCP segment: header and payload.
    pub open spec fn segment_len(&self) -> nat {
        20 + self.payload@.len()
    }

    /// The sum of the pseudo-header and segment words, checksum left out.
    pub open spec fn tcp_word_sum(&self) -> nat {
        word_sum32(self.ip.src) + word_sum32(self.ip.dst) + self.ip.protocol as nat
            + self.segment_len() + tcp_header_word_sum(self.tcp) + bytes_word_sum(self.payload@, 0)
    }

    /// The TCP checksum that a from-scratch computation gives.
    pub open spec fn spec_tcp_checksum(&self) -> int {
        internet_checksum(self.tcp_word_sum())
    }

    pub open spec fn tcp_checksum_valid(&self) -> bool {
        self.tcp.checksum as int == self.spec_tcp_checksum()
    }

    /// Computes the TCP checksum over pseudo-header, header and payload.
    pub fn tcp_checksum(&self) -> (r: u16)
        requires
            self.wf(),
        ensures
            r as int == self.spec_tcp_checksum(),
    {
        let acc = bytes_sum(&self.payload);
        let hdr = tcp_header_sum(&self.tcp);
        let pseudo: u64 = word32(self.ip.src) + word32(self.ip.dst) + self.ip.protocol as u64 + 20
            + self.payload.len() as u64;
        checksum_from_sum(pseudo + hdr + acc)
    }

    /// Recomputes the TCP checksum from scratch.
    pub fn update_tcp_checksum(&mut self)
        requires
            old(self).wf(),
        ensures
            final(self).tcp_checksum_valid(),
            final(self).mac == old(self).mac,
            final(self).ip == old(self).ip,
            final(self).payload@ == old(self).payload@,
            final(self).tcp == (TcpHeader { checksum: final(self).tcp.checksum, ..old(self).tcp }),
    {
        let c = self.tcp_checksum();
        self.tcp.checksum = c;
    }
}

} // verus!

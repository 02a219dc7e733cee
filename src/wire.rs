//! Reading a TCP/IPv4 Ethernet frame from its bytes.
use vstd::prelude::*;
use crate::classify::{be16, be32};
use crate::headers::{Frame, IpHeader, MacAddr, MacHeader, TcpHeader};

verus! {

/// Length of the Ethernet header.
pub const ETH_LEN: usize = 14;

/// Offset of the TCP payload in a frame whose IPv4 header has no options.
pub const PAYLOAD_OFFSET: usize = 54;

/// The 48-bit number at byte `i` of `b`, most significant byte first.
pub open spec fn be48(b: Seq<u8>, i: int) -> nat {
    be16(b, i) * 0x1_0000_0000 + be32(b, i + 2)
}

/// Bit `k` (0 the least significant) of byte `x`.
pub open spec fn spec_bit(x: u8, k: nat) -> bool {
    (x as nat / pow2(k)) % 2 == 1
}

pub open spec fn pow2(k: nat) -> nat
    decreases k,
{
    if k == 0 {
        1
    } else {
        2 * pow2((k - 1) as nat)
    }
}

/// `b` holds an Ethernet frame with an IPv4 header without options and a
/// TCP header, the IPv4 total length covering both headers and lying within
/// `b`.
pub open spec fn spec_parses(b: Seq<u8>) -> bool {
    &&& b.len() >= PAYLOAD_OFFSET
    &&& b[14] == 0x45
    &&& b[23] == 6
    &&& 40 <= be16(b, 16) <= b.len() - ETH_LEN
}

/// The headers of `f` are those written in `b`, and its payload is the rest
/// of the IPv4 packet.
pub open spec fn spec_frame_of(b: Seq<u8>, f: Frame) -> bool {
    &&& f.mac.dst.bits == be48(b, 0)
    &&& f.mac.src.bits == be48(b, 6)
    &&& f.mac.etype == be16(b, 12)
    &&& f.ip.version == 4 && f.ip.ihl == 5
    &&& f.ip.tos == b[15]
    &&& f.ip.length == be16(b, 16)
    &&& f.ip.id == be16(b, 18)
    &&& f.ip.flags == b[20] / 32
    &&& f.ip.frag_offset == be16(b, 20) % 8192
    &&& f.ip.ttl == b[22]
    &&& f.ip.protocol == b[23]
    &&& f.ip.checksum == be16(b, 24)
    &&& f.ip.src == be32(b, 26)
    &&& f.ip.dst == be32(b, 30)
    &&& f.tcp.src_port == be16(b, 34)
    &&& f.tcp.dst_port == be16(b, 36)
    &&& f.tcp.seq_num == be32(b, 38)
    &&& f.tcp.ack_num == be32(b, 42)
    &&& f.tcp.data_offset == b[46] / 16
    &&& f.tcp.ns == spec_bit(b[46], 0)
    &&& f.tcp.cwr == spec_bit(b[47], 7)
    &&& f.tcp.ece == spec_bit(b[47], 6)
    &&& f.tcp.urg == spec_bit(b[47], 5)
    &&& f.tcp.ack == spec_bit(b[47], 4)
    &&& f.tcp.psh == spec_bit(b[47], 3)
    &&& f.tcp.rst == spec_bit(b[47], 2)
    &&& f.tcp.syn == spec_bit(b[47], 1)
    &&& f.tcp.fin == spec_bit(b[47], 0)
    &&& f.tcp.window == be16(b, 48)
    &&& f.tcp.checksum == be16(b, 50)
    &&& f.tcp.urgent == be16(b, 52)
    &&& f.payload@ == b.subrange(PAYLOAD_OFFSET as int, ETH_LEN + be16(b, 16))
}

fn rd16(b: &[u8], i: usize) -> (r: u16)
    requires
        i <= 52,
        i + 2 <= b@.len(),
    ensures
        r == be16(b@, i as int),
{
    b[i] as u16 * 256 + b[i + 1] as u16
}

fn rd32(b: &[u8], i: usize) -> (r: u32)
    requires
        i <= 42,
        i + 4 <= b@.len(),
    ensures
        r == be32(b@, i as int),
{
    rd16(b, i) as u32 * 65536 + rd16(b, i + 2) as u32
}

fn rd48(b: &[u8], i: usize) -> (r: u64)
    requires
        i <= 6,
        i + 6 <= b@.len(),
    ensures
        r == be48(b@, i as int),
        r < 0x1_0000_0000_0000,
{
    rd16(b, i) as u64 * 0x1_0000_0000 + rd32(b, i + 2) as u64
}

fn bit(x: u8, k: u32) -> (r: bool)
    requires
        k < 8,
    ensures
        r == spec_bit(x, k as nat),
{
    let mut d: u8 = x;
    let mut j: u32 = 0;
    assert(pow2(0) == 1);
    while j < k
        invariant
            j <= k,
            k < 8,
            d as nat == x as nat / pow2(j as nat),
        decreases k - j,
    {
        proof {
            lemma_pow2_pos(j as nat);
            vstd::arithmetic::div_mod::lemma_div_denominator(x as int, pow2(j as nat) as int, 2);
            assert(pow2((j + 1) as nat) == 2 * pow2(j as nat));
            assert(pow2(j as nat) * 2 == 2 * pow2(j as nat)) by (nonlinear_arith);
        }
        d = d / 2;
        j = j + 1;
    }
    d % 2 == 1
}

proof fn lemma_pow2_pos(k: nat)
    ensures
        pow2(k) > 0,
    decreases k,
{
    if k > 0 {
        lemma_pow2_pos((k - 1) as nat);
    }
}

/// Reads a TCP/IPv4 frame; `None` where `b` does not hold one.
pub fn parse_frame(b: &[u8]) -> (r: Option<Frame>)
    ensures
        r is Some <==> spec_parses(b@),
        r is Some ==> spec_frame_of(b@, r.unwrap()),
        r is Some ==> r.unwrap().wf(),
{
    if b.len() < PAYLOAD_OFFSET || b[14] != 0x45 || b[23] != 6 {
        return None;
    }
    let length = rd16(b, 16);
    if length < 40 || length as usize > b.len() - ETH_LEN {
        return None;
    }
    let end: usize = ETH_LEN + length as usize;
    let mut payload: Vec<u8> = Vec::new();
    let mut i: usize = PAYLOAD_OFFSET;
    while i < end
        invariant
            PAYLOAD_OFFSET <= i <= end,
            end <= b@.len(),
            payload@ == b@.subrange(PAYLOAD_OFFSET as int, i as int),
        decreases end - i,
    {
        payload.push(b[i]);
        proof {
            assert(b@.subrange(PAYLOAD_OFFSET as int, i + 1) =~= b@.subrange(PAYLOAD_OFFSET as int, i as int).push(
                b@[i as int],
            ));
        }
        i = i + 1;
    }
    let f = Frame {
        mac: MacHeader {
            dst: MacAddr { bits: rd48(b, 0) },
            src: MacAddr { bits: rd48(b, 6) },
            etype: rd16(b, 12),
        },
        ip: IpHeader {
            version: 4,
            ihl: 5,
            tos: b[15],
            length,
            id: rd16(b, 18),
            flags: b[20] / 32,
            frag_offset: rd16(b, 20) % 8192,
            ttl: b[22],
            protocol: b[23],
            checksum: rd16(b, 24),
            src: rd32(b, 26),
            dst: rd32(b, 30),
        },
        tcp: TcpHeader {
            src_port: rd16(b, 34),
            dst_port: rd16(b, 36),
            seq_num: rd32(b, 38),
            ack_num: rd32(b, 42),
            data_offset: b[46] / 16,
            ns: bit(b[46], 0),
            cwr: bit(b[47], 7),
            ece: bit(b[47], 6),
            urg: bit(b[47], 5),
            ack: bit(b[47], 4),
            psh: bit(b[47], 3),
            rst: bit(b[47], 2),
            syn: bit(b[47], 1),
            fin: bit(b[47], 0),
            window: rd16(b, 48),
            checksum: rd16(b, 50),
            urgent: rd16(b, 52),
        },
        payload,
    };
    Some(f)
}

} // verus!

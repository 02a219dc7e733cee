//! Header rewriting: turning an injector frame into a SYN, answering a
//! SYN-ACK, and translating server segments for the client.
use vstd::prelude::*;
use vstd::wrapping::u32_specs;
use crate::checksum::{checksum_adjust, checksum_adjust32, internet_checksum, lemma_checksum_range, lemma_checksum_shift, lemma_mod_absorb, word_sum32};
use crate::connection::{Connection, L234Address};
use crate::headers::{Frame, IpHeader, MacHeader, TcpHeader};

verus! {

/// Ethertype of a plain IPv4 frame.
pub const ETYPE_IPV4: u16 = 0x0800;

/// Receive window advertised in generated SYNs (four segments of 1460 bytes).
pub const SYN_WINDOW: u16 = 5840;

/// The two frames agree in every field but the IP and TCP checksums.
pub open spec fn same_but_checksums(a: Frame, b: Frame) -> bool {
    &&& a.mac == b.mac
    &&& IpHeader { checksum: 0, ..a.ip } == IpHeader { checksum: 0, ..b.ip }
    &&& TcpHeader { checksum: 0, ..a.tcp } == TcpHeader { checksum: 0, ..b.tcp }
    &&& a.payload@ == b.payload@
}

/// The SYN made from injector frame `o` for the connection on `port`
/// towards `server`, with initial sequence number `seqn`.
pub open spec fn spec_syn_frame(o: Frame, port: u16, server: L234Address, me: L234Address, seqn: u32) -> Frame {
    Frame {
        mac: MacHeader { dst: server.mac, src: me.mac, etype: ETYPE_IPV4 },
        ip: IpHeader { src: me.ip, dst: server.ip, ..o.ip },
        tcp: TcpHeader {
            src_port: port,
            dst_port: server.port,
            seq_num: seqn,
            ack_num: 0,
            syn: true,
            ack: false,
            psh: false,
            window: SYN_WINDOW,
            ..o.tcp
        },
        payload: o.payload,
    }
}

/// The ACK answering SYN-ACK `o`: addresses and ports swapped, SYN cleared,
/// ACK set, acknowledging one past the server's sequence number, with our
/// sequence number `seqn`.
pub open spec fn spec_synack_reply(o: Frame, seqn: u32) -> Frame {
    Frame {
        mac: MacHeader { dst: o.mac.src, src: o.mac.dst, ..o.mac },
        ip: IpHeader { src: o.ip.dst, dst: o.ip.src, ..o.ip },
        tcp: TcpHeader {
            src_port: o.tcp.dst_port,
            dst_port: o.tcp.src_port,
            ack: true,
            syn: false,
            ack_num: u32_specs::wrapping_add(o.tcp.seq_num, 1),
            seq_num: seqn,
            ..o.tcp
        },
        payload: o.payload,
    }
}

/// The acknowledgement number after taking out the bytes inserted towards
/// the server.
pub open spec fn spec_translated_ack(ack: u32, inserted: i32) -> u32 {
    if inserted != 0 {
        u32_specs::wrapping_sub(ack, inserted as u32)
    } else {
        ack
    }
}

/// Server segment `o` as forwarded to the client of `c`.
pub open spec fn spec_server_to_client(o: Frame, c: Connection, me: L234Address) -> Frame {
    Frame {
        mac: MacHeader { dst: c.client_mac, src: me.mac, ..o.mac },
        ip: IpHeader { src: me.ip, dst: c.client_ip, ..o.ip },
        tcp: TcpHeader {
            src_port: me.port,
            dst_port: c.client_port,
            seq_num: u32_specs::wrapping_add(o.tcp.seq_num, c.c_seqn),
            ack_num: spec_translated_ack(o.tcp.ack_num, c.c2s_inserted_bytes),
            ..o.tcp
        },
        payload: o.payload,
    }
}

/// Rewrites injector frame `f` into the SYN for `c` towards `server`, with
/// `seqn` as initial sequence number, and records the server in `c`.
pub fn generate_syn(f: &mut Frame, c: &mut Connection, server: L234Address, me: &L234Address, seqn: u32)
    requires
        old(f).wf(),
    ensures
        final(f).wf(),
        same_but_checksums(*final(f), spec_syn_frame(*old(f), old(c).proxy_port, server, *me, seqn)),
        crate::headers::ip_checksum_valid(final(f).ip),
        final(f).tcp_checksum_valid(),
        *final(c) == (Connection {
            server: Some(server),
            c_seqn: seqn,
            con_rec: crate::connection::ConnectionRecord { server_id: server.server_id, ..old(c).con_rec },
            ..*old(c)
        }),
{
    f.mac.etype = ETYPE_IPV4;
    f.mac.dst = server.mac;
    f.mac.src = me.mac;
    f.ip.dst = server.ip;
    f.tcp.dst_port = server.port;
    f.ip.src = me.ip;
    f.tcp.src_port = c.proxy_port;
    f.ip.update_checksum();
    c.con_rec.server_id = server.server_id.clone();
    c.server = Some(server);
    c.c_seqn = seqn;
    f.tcp.seq_num = seqn;
    f.tcp.syn = true;
    f.tcp.window = SYN_WINDOW;
    f.tcp.ack_num = 0;
    f.tcp.ack = false;
    f.tcp.psh = false;
    f.update_tcp_checksum();
}

/// Answers a server SYN-ACK in place: the frame becomes our ACK, with our
/// sequence number advanced by `seqn_inc`.
pub fn server_synack_received(f: &mut Frame, c: &mut Connection, seqn_inc: u32)
    requires
        old(f).wf(),
    ensures
        final(f).wf(),
        *final(c) == (Connection { c_seqn: u32_specs::wrapping_add(old(c).c_seqn, seqn_inc), ..*old(c) }),
        same_but_checksums(*final(f), spec_synack_reply(*old(f), final(c).c_seqn)),
        final(f).ip.checksum == old(f).ip.checksum,
        final(f).tcp_checksum_valid(),
{
    let smac = f.mac.src;
    let dmac = f.mac.dst;
    let sip = f.ip.src;
    let dip = f.ip.dst;
    let sport = f.tcp.src_port;
    let dport = f.tcp.dst_port;
    f.mac.src = dmac;
    f.mac.dst = smac;
    f.ip.dst = sip;
    f.ip.src = dip;
    f.tcp.src_port = dport;
    f.tcp.dst_port = sport;
    f.tcp.ack = true;
    f.tcp.ack_num = f.tcp.seq_num.wrapping_add(1);
    f.tcp.syn = false;
    c.c_seqn = c.c_seqn.wrapping_add(seqn_inc);
    f.tcp.seq_num = c.c_seqn;
    f.update_tcp_checksum();
}

/// The TCP checksum of server segment `o` once translated for the client
/// of `c`, by incremental updates of its own checksum for each rewritten
/// field.
fn translated_tcp_checksum(o: &Frame, c: &Connection, me: &L234Address) -> (r: u16)
    requires
        o.wf(),
    ensures
        o.tcp_checksum_valid() ==> r as int == spec_server_to_client(*o, *c, *me).spec_tcp_checksum(),
{
    let newseqn = o.tcp.seq_num.wrapping_add(c.c_seqn);
    let newackn = o.tcp.ack_num.wrapping_sub(c.c2s_inserted_bytes as u32);
    let cs0 = o.tcp.checksum;
    let cs1 = checksum_adjust(cs0, o.tcp.src_port, me.port);
    let cs2 = checksum_adjust(cs1, o.tcp.dst_port, c.client_port);
    let cs3 = checksum_adjust32(cs2, o.ip.src, me.ip);
    let cs4 = checksum_adjust32(cs3, o.ip.dst, c.client_ip);
    let mut cs5 = cs4;
    if c.c2s_inserted_bytes != 0 {
        cs5 = checksum_adjust32(cs4, o.tcp.ack_num, newackn);
    }
    let cs6 = checksum_adjust32(cs5, o.tcp.seq_num, newseqn);
    proof {
        if o.tcp_checksum_valid() {
            let t = spec_server_to_client(*o, *c, *me);
            let d1 = o.tcp.src_port as int - me.port as int;
            let d2 = o.tcp.dst_port as int - c.client_port as int;
            let d3 = word_sum32(o.ip.src) as int - word_sum32(me.ip) as int;
            let d4 = word_sum32(o.ip.dst) as int - word_sum32(c.client_ip) as int;
            let d5 = word_sum32(o.tcp.ack_num) as int - word_sum32(t.tcp.ack_num) as int;
            let d6 = word_sum32(o.tcp.seq_num) as int - word_sum32(newseqn) as int;
            assert(t.tcp_word_sum() as int == o.tcp_word_sum() as int - (d1 + d2 + d3 + d4 + d5 + d6));
            lemma_adjust_chain(cs0, o.tcp_word_sum() as int, d1, d2, d3, d4, d5, d6, cs1, cs2, cs3, cs4, cs5, cs6);
        }
    }
    cs6
}

/// Translates a server segment for the client of `c`. The TCP checksum is
/// updated incrementally for each rewritten field, so a segment that arrived
/// with a correct checksum leaves with a correct one.
pub fn server_to_client(f: &mut Frame, c: &Connection, me: &L234Address)
    requires
        old(f).wf(),
    ensures
        final(f).wf(),
        same_but_checksums(*final(f), spec_server_to_client(*old(f), *c, *me)),
        final(f).ip.checksum == old(f).ip.checksum,
        old(f).tcp_checksum_valid() ==> final(f).tcp_checksum_valid(),
{
    let cs = translated_tcp_checksum(f, c, me);
    f.mac.dst = c.client_mac;
    f.mac.src = me.mac;
    f.ip.dst = c.client_ip;
    f.ip.src = me.ip;
    f.tcp.src_port = me.port;
    f.tcp.dst_port = c.client_port;
    let oldackn = f.tcp.ack_num;
    if c.c2s_inserted_bytes != 0 {
        f.tcp.ack_num = oldackn.wrapping_sub(c.c2s_inserted_bytes as u32);
    }
    f.tcp.seq_num = f.tcp.seq_num.wrapping_add(c.c_seqn);
    f.tcp.checksum = cs;
}

/// Six successive incremental updates, by `d1` to `d6`, of a correct
/// checksum give the checksum of the sum that changed by minus their total.
proof fn lemma_adjust_chain(
    cs0: u16,
    s0: int,
    d1: int,
    d2: int,
    d3: int,
    d4: int,
    d5: int,
    d6: int,
    cs1: u16,
    cs2: u16,
    cs3: u16,
    cs4: u16,
    cs5: u16,
    cs6: u16,
)
    requires
        s0 > 0,
        s0 - (d1 + d2 + d3 + d4 + d5 + d6) > 0,
        cs0 as int == internet_checksum(s0 as nat),
        cs0 < 65535 ==> cs1 < 65535 && cs1 as int == (cs0 + d1) % 65535,
        cs1 < 65535 ==> cs2 < 65535 && cs2 as int == (cs1 + d2) % 65535,
        cs2 < 65535 ==> cs3 < 65535 && cs3 as int == (cs2 + d3) % 65535,
        cs3 < 65535 ==> cs4 < 65535 && cs4 as int == (cs3 + d4) % 65535,
        cs4 < 65535 ==> cs5 < 65535 && cs5 as int == (cs4 + d5) % 65535,
        cs5 < 65535 ==> cs6 < 65535 && cs6 as int == (cs5 + d6) % 65535,
    ensures
        cs6 as int == internet_checksum((s0 - (d1 + d2 + d3 + d4 + d5 + d6)) as nat),
{
    lemma_checksum_range(s0 as nat);
    lemma_mod_absorb(cs0 + d1, d2);
    lemma_mod_absorb(cs0 + d1 + d2, d3);
    lemma_mod_absorb(cs0 + d1 + d2 + d3, d4);
    lemma_mod_absorb(cs0 + d1 + d2 + d3 + d4, d5);
    lemma_mod_absorb(cs0 + d1 + d2 + d3 + d4 + d5, d6);
    lemma_checksum_shift(s0, d1 + d2 + d3 + d4 + d5 + d6);
}

} // verus!

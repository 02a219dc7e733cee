//! The synthetic SYN source: bursts of prepared frames that the state
//! machine turns into real SYNs.
use vstd::prelude::*;
use crate::connection::L234Address;
use crate::headers::{Frame, IpHeader, MacAddr, MacHeader, TcpHeader};
use crate::pipeline::PRIVATE_ETYPE_TAG;

verus! {

/// Frames made per tick.
pub const BURST: usize = 16;

/// Makes up to `BURST` frames per tick; with `no_batches` zero without end,
/// else for `no_batches` ticks.
pub struct PacketInjector {
    mac: MacHeader,
    ip: IpHeader,
    tcp: TcpHeader,
    no_batches: u32,
    sent_batches: u32,
    emitted: Ghost<nat>,
}

/// The prototype MAC header: our address as source, the private ethertype.
pub open spec fn spec_proto_mac(me: L234Address) -> MacHeader {
    MacHeader { dst: MacAddr { bits: 0 }, src: me.mac, etype: PRIVATE_ETYPE_TAG }
}

/// The prototype IPv4 header: version 4, 20-byte header, 40 bytes in all,
/// TCP, TTL 128, don't fragment, our address as source.
pub open spec fn spec_proto_ip(me: L234Address) -> IpHeader {
    IpHeader {
        version: 4,
        ihl: 5,
        tos: 0,
        length: 40,
        id: 0,
        flags: 2,
        frag_offset: 0,
        ttl: 128,
        protocol: 6,
        checksum: 0,
        src: me.ip,
        dst: 0,
    }
}

/// The prototype TCP header: SYN only, 20-byte header, source port `port`.
pub open spec fn spec_proto_tcp(port: u16) -> TcpHeader {
    TcpHeader {
        src_port: port,
        dst_port: 0,
        seq_num: 0,
        ack_num: 0,
        data_offset: 5,
        ns: false,
        cwr: false,
        ece: false,
        urg: false,
        ack: false,
        psh: false,
        rst: false,
        syn: true,
        fin: false,
        window: 0,
        checksum: 0,
        urgent: 0,
    }
}

impl PacketInjector {
    pub closed spec fn spec_mac(&self) -> MacHeader {
        self.mac
    }

    pub closed spec fn spec_ip(&self) -> IpHeader {
        self.ip
    }

    pub closed spec fn spec_tcp(&self) -> TcpHeader {
        self.tcp
    }

    pub closed spec fn spec_no_batches(&self) -> u32 {
        self.no_batches
    }

    pub closed spec fn spec_sent_batches(&self) -> u32 {
        self.sent_batches
    }

    /// How many frames all ticks so far have made.
    pub closed spec fn spec_emitted(&self) -> nat {
        self.emitted@
    }

    /// The TCP prototype is SYN only; a limited injector has made its frames
    /// in at most `no_batches` ticks of `BURST` frames.
    pub open spec fn wf(&self) -> bool {
        &&& self.spec_tcp() == spec_proto_tcp(self.spec_tcp().src_port)
        &&& self.spec_no_batches() > 0 ==> self.spec_sent_batches() <= self.spec_no_batches()
            && self.spec_emitted() == BURST * self.spec_sent_batches()
    }

    /// An injector for endpoint `me`; `no_batches` zero means without end.
    pub fn new(hd_src_data: &L234Address, no_batches: u32) -> (r: PacketInjector)
        ensures
            r.wf(),
            r.spec_mac() == spec_proto_mac(*hd_src_data),
            r.spec_ip() == spec_proto_ip(*hd_src_data),
            r.spec_tcp() == spec_proto_tcp(hd_src_data.port),
            r.spec_no_batches() == no_batches,
            r.spec_sent_batches() == 0,
            r.spec_emitted() == 0,
    {
        let mac = MacHeader { dst: MacAddr { bits: 0 }, src: hd_src_data.mac, etype: PRIVATE_ETYPE_TAG };
        let ip = IpHeader {
            version: 4,
            ihl: 5,
            tos: 0,
            length: 40,
            id: 0,
            flags: 2,
            frag_offset: 0,
            ttl: 128,
            protocol: 6,
            checksum: 0,
            src: hd_src_data.ip,
            dst: 0,
        };
        let tcp = TcpHeader {
            src_port: hd_src_data.port,
            dst_port: 0,
            seq_num: 0,
            ack_num: 0,
            data_offset: 5,
            ns: false,
            cwr: false,
            ece: false,
            urg: false,
            ack: false,
            psh: false,
            rst: false,
            syn: true,
            fin: false,
            window: 0,
            checksum: 0,
            urgent: 0,
        };
        PacketInjector { mac, ip, tcp, no_batches, sent_batches: 0, emitted: Ghost(0) }
    }

    /// A frame from the prototype headers, with no payload.
    fn initialize_packet(&self) -> (r: Frame)
        ensures
            r.mac == self.mac,
            r.ip == self.ip,
            r.tcp == self.tcp,
            r.payload@.len() == 0,
    {
        Frame { mac: self.mac, ip: self.ip, tcp: self.tcp, payload: Vec::new() }
    }

    /// The next frame; the source port of the following one is one higher.
    pub fn create_packet(&mut self) -> (r: Frame)
        requires
            old(self).wf(),
        ensures
            final(self).wf(),
            r.mac == old(self).spec_mac(),
            r.ip == old(self).spec_ip(),
            r.tcp == old(self).spec_tcp(),
            r.tcp == spec_proto_tcp(old(self).spec_tcp().src_port),
            r.payload@.len() == 0,
            r.wf(),
            final(self).spec_tcp() == spec_proto_tcp(
                vstd::wrapping::u16_specs::wrapping_add(old(self).spec_tcp().src_port, 1),
            ),
            final(self).spec_tcp() == (TcpHeader {
                src_port: vstd::wrapping::u16_specs::wrapping_add(old(self).spec_tcp().src_port, 1),
                ..old(self).spec_tcp()
            }),
            final(self).spec_mac() == old(self).spec_mac(),
            final(self).spec_ip() == old(self).spec_ip(),
            final(self).spec_no_batches() == old(self).spec_no_batches(),
            final(self).spec_sent_batches() == old(self).spec_sent_batches(),
            final(self).spec_emitted() == old(self).spec_emitted(),
    {
        let p = self.initialize_packet();
        self.tcp.src_port = self.tcp.src_port.wrapping_add(1);
        p
    }

    /// One tick: a burst of `BURST` frames with consecutive source ports,
    /// or none once `no_batches` ticks have made theirs.
    pub fn execute(&mut self) -> (r: Vec<Frame>)
        requires
            old(self).wf(),
        ensures
            final(self).wf(),
            final(self).spec_mac() == old(self).spec_mac(),
            final(self).spec_ip() == old(self).spec_ip(),
            final(self).spec_no_batches() == old(self).spec_no_batches(),
            final(self).spec_emitted() == old(self).spec_emitted() + r@.len(),
            ({
                let due = old(self).spec_no_batches() == 0 || old(self).spec_sent_batches()
                    < old(self).spec_no_batches();
                let port = ((old(self).spec_tcp().src_port + BURST) % 65536) as u16;
                &&& due ==> r@.len() == BURST
                &&& due ==> final(self).spec_tcp() == spec_proto_tcp(port)
                &&& due ==> final(self).spec_tcp() == (TcpHeader { src_port: port, ..old(self).spec_tcp() })
                &&& due ==> final(self).spec_sent_batches() == if old(self).spec_sent_batches() == u32::MAX {
                    u32::MAX
                } else {
                    (old(self).spec_sent_batches() + 1) as u32
                }
                &&& old(self).spec_no_batches() > 0 && due ==> final(self).spec_sent_batches()
                    == old(self).spec_sent_batches() + 1
                &&& !due ==> r@.len() == 0
                &&& !due ==> final(self).spec_tcp() == old(self).spec_tcp()
                &&& !due ==> final(self).spec_sent_batches() == old(self).spec_sent_batches()
                &&& !due ==> final(self).spec_emitted() == old(self).spec_emitted()
            }),
            forall|k: int|
                0 <= k < r@.len() ==> {
                    &&& (#[trigger] r@[k]).mac == old(self).spec_mac()
                    &&& r@[k].ip == old(self).spec_ip()
                    &&& r@[k].tcp == spec_proto_tcp(
                        ((old(self).spec_tcp().src_port + k) % 65536) as u16,
                    )
                    &&& r@[k].tcp == (TcpHeader {
                        src_port: ((old(self).spec_tcp().src_port + k) % 65536) as u16,
                        ..old(self).spec_tcp()
                    })
                    &&& r@[k].payload@.len() == 0
                },
    {
        let mut out: Vec<Frame> = Vec::new();
        if self.no_batches == 0 || self.sent_batches < self.no_batches {
            let ghost port0 = self.tcp.src_port;
            let mut i: usize = 0;
            while i < BURST
                invariant
                    self.wf(),
                    i <= BURST,
                    out@.len() == i,
                    self.tcp.src_port == (port0 + i) % 65536,
                    self.mac == old(self).mac,
                    self.ip == old(self).ip,
                    self.no_batches == old(self).no_batches,
                    self.sent_batches == old(self).sent_batches,
                    self.emitted == old(self).emitted,
                    old(self).tcp.src_port == port0,
                    forall|k: int|
                        0 <= k < i ==> {
                            &&& (#[trigger] out@[k]).mac == old(self).mac
                            &&& out@[k].ip == old(self).ip
                            &&& out@[k].tcp == spec_proto_tcp(((port0 + k) % 65536) as u16)
                            &&& out@[k].payload@.len() == 0
                        },
                decreases BURST - i,
            {
                let p = self.create_packet();
                out.push(p);
                i = i + 1;
            }
            self.sent_batches = self.sent_batches.saturating_add(1);
            self.emitted = Ghost(self.emitted@ + BURST as nat);
        }
        out
    }
}

/// However many ticks run, an injector limited to `no_batches` ticks has
/// made at most `BURST * no_batches` frames.
pub proof fn lemma_emitted_bound(inj: PacketInjector)
    requires
        inj.wf(),
        inj.spec_no_batches() > 0,
    ensures
        inj.spec_emitted() <= BURST * inj.spec_no_batches(),
{
    assert(inj.spec_emitted() == BURST * inj.spec_sent_batches());
    assert(inj.spec_sent_batches() <= inj.spec_no_batches());
    assert(BURST * inj.spec_sent_batches() <= BURST * inj.spec_no_batches()) by (nonlinear_arith)
        requires
            inj.spec_sent_batches() <= inj.spec_no_batches(),
    ;
}

} // verus!

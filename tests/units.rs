use nftraffic::checksum::{checksum_adjust, checksum_adjust32, checksum_from_sum, fold_carries};
use nftraffic::classify::{ipv4_extract_flow, is_kni_core, l2_filter, l2_group, Ipv4Flow};
use nftraffic::cmanager::ConnectionManager;
use nftraffic::config::{engine_address, engine_address_from, ConfigError};
use nftraffic::connection::{Connection, L234Address, ReleaseCause, TcpState};
use nftraffic::headers::{Frame, IpHeader, MacAddr, MacHeader, TcpHeader};
use nftraffic::injector::PacketInjector;
use nftraffic::pipeline::{classify_segment, MessageFrom, PipelineId, SegmentAction, ServerSelector, TcpPipeline};
use nftraffic::rewrite::server_to_client;
use nftraffic::timer_wheel::{TimerEntry, TimerWheel};

struct ByPort;

impl ServerSelector for ByPort {
    fn select_server(&self, c: &Connection) -> L234Address {
        L234Address {
            mac: MacAddr::from_octets([2, 0, 0, 0, 0, 9]),
            ip: 0x0A00_0100 + (c.proxy_port % 4) as u32,
            port: 443,
            server_id: format!("s{}", c.proxy_port % 4),
        }
    }
}

fn engine() -> L234Address {
    L234Address {
        mac: MacAddr::from_octets([2, 0, 0, 0, 0, 1]),
        ip: 0x0A00_0001,
        port: 8000,
        server_id: "TrafficEngine".to_string(),
    }
}

fn tcp_header(src_port: u16, dst_port: u16, seq: u32, ack: u32) -> TcpHeader {
    TcpHeader {
        src_port,
        dst_port,
        seq_num: seq,
        ack_num: ack,
        data_offset: 5,
        ns: false,
        cwr: false,
        ece: false,
        urg: false,
        ack: true,
        psh: true,
        rst: false,
        syn: false,
        fin: false,
        window: 1000,
        checksum: 0,
        urgent: 0,
    }
}

fn ip_header(src: u32, dst: u32, ttl: u8) -> IpHeader {
    IpHeader {
        version: 4,
        ihl: 5,
        tos: 0,
        length: 45,
        id: 0x1c46,
        flags: 2,
        frag_offset: 0,
        ttl,
        protocol: 6,
        checksum: 0,
        src,
        dst,
    }
}

#[test]
fn rfc1071_example_checksum() {
    // words 0001 f203 f4f5 f6f7: one's-complement sum ddf2, checksum 220d
    let sum: u64 = 0x0001 + 0xf203 + 0xf4f5 + 0xf6f7;
    assert_eq!(fold_carries(sum), 0xddf2);
    assert_eq!(checksum_from_sum(sum), 0x220d);
    assert_eq!(checksum_from_sum(0), 0xffff);
    assert_eq!(fold_carries(0xffff), 0xffff);
}

#[test]
fn ip_header_checksum_known_value() {
    // 4500 0073 0000 4000 4011 ---- c0a8 0001 c0a8 00c7: checksum b861
    let mut h = IpHeader {
        version: 4,
        ihl: 5,
        tos: 0,
        length: 0x73,
        id: 0,
        flags: 2,
        frag_offset: 0,
        ttl: 64,
        protocol: 17,
        checksum: 0,
        src: 0xc0a8_0001,
        dst: 0xc0a8_00c7,
    };
    h.update_checksum();
    assert_eq!(h.checksum, 0xb861);
}

#[test]
fn incremental_adjust_matches_recompute() {
    let mut f = Frame {
        mac: MacHeader { dst: MacAddr { bits: 1 }, src: MacAddr { bits: 2 }, etype: 0x0800 },
        ip: ip_header(0x0A00_0002, 0x0A00_0001, 64),
        tcp: tcp_header(80, 10000, 0xFFFF_FFF0, 77),
        payload: vec![1, 2, 3, 4, 5],
    };
    f.update_tcp_checksum();
    let old = f.tcp.checksum;
    let new16 = checksum_adjust(old, 80, 8000);
    f.tcp.src_port = 8000;
    assert_eq!(new16, f.tcp_checksum());
    let new32 = checksum_adjust32(new16, 0xFFFF_FFF0, 0x0000_0010);
    f.tcp.seq_num = 0x0000_0010;
    assert_eq!(new32, f.tcp_checksum());
    assert_ne!(new32, old);
}

#[test]
fn translation_keeps_tcp_checksum_valid() {
    let me = engine();
    let mut c = Connection::new(10000);
    c.client_mac = MacAddr::from_octets([2, 0, 0, 0, 0, 7]);
    c.client_ip = 0x0A00_0001;
    c.client_port = 1234;
    c.c_seqn = 0xF000_0000;
    c.c2s_inserted_bytes = 3;
    let mut f = Frame {
        mac: MacHeader { dst: me.mac, src: MacAddr::from_octets([2, 0, 0, 0, 0, 2]), etype: 0x0800 },
        ip: ip_header(0x0A00_0002, 0x0A00_0001, 64),
        tcp: tcp_header(80, 10000, 0x2000_0001, 1),
        payload: vec![0xde, 0xad, 0xbe],
    };
    f.update_tcp_checksum();
    server_to_client(&mut f, &c, &me);
    assert_eq!(f.tcp.src_port, 8000);
    assert_eq!(f.tcp.dst_port, 1234);
    assert_eq!(f.ip.src, 0x0A00_0001);
    assert_eq!(f.ip.dst, 0x0A00_0001);
    assert_eq!(f.mac.dst, c.client_mac);
    assert_eq!(f.tcp.seq_num, 0x1000_0001);
    assert_eq!(f.tcp.ack_num, 0xFFFF_FFFE);
    assert_eq!(f.tcp.checksum, f.tcp_checksum());
}

#[test]
fn ttl_saturates_at_zero() {
    let mut h = ip_header(1, 2, 0);
    h.decrement_ttl();
    assert_eq!(h.ttl, 0);
    let mut g = ip_header(1, 2, 1);
    g.decrement_ttl();
    assert_eq!(g.ttl, 0);
    let mut k = ip_header(1, 2, 200);
    k.decrement_ttl();
    assert_eq!(k.ttl, 199);
    let check = k.checksum;
    k.update_checksum();
    assert_eq!(k.checksum, check);
}

#[test]
fn injector_stops_after_no_batches() {
    let mut inj = PacketInjector::new(&engine(), 2);
    let a = inj.execute();
    let b = inj.execute();
    let c = inj.execute();
    assert_eq!(a.len(), 16);
    assert_eq!(b.len(), 16);
    assert_eq!(c.len(), 0);
    assert_eq!(a[0].tcp.src_port, 8000);
    assert_eq!(a[15].tcp.src_port, 8015);
    assert_eq!(b[0].tcp.src_port, 8016);
    assert_eq!(a[3].mac.etype, 0x08FF);
    assert_eq!(a[3].ip.ttl, 128);
    assert_eq!(a[3].ip.length, 40);
    assert_eq!(a[3].ip.flags, 2);
    assert!(a[3].tcp.syn && !a[3].tcp.ack);
    assert_eq!(a[3].tcp.data_offset, 5);
}

#[test]
fn injector_unbounded() {
    let mut inj = PacketInjector::new(&engine(), 0);
    for _ in 0..5 {
        assert_eq!(inj.execute().len(), 16);
    }
}

#[test]
fn timestamp_every_1024_syns() {
    let mut p = TcpPipeline::new(engine(), PipelineId { core: 5, port_id: 1, rxq: 2 }, 20000, 1100, 1_000_000);
    let mut inj = PacketInjector::new(&engine(), 0);
    let mut msgs = Vec::new();
    let mut made = 0;
    while made < 1030 {
        for mut f in inj.execute() {
            if made < 1030 {
                assert_eq!(p.process_frame_with(&mut f, &ByPort, made as u32, 42, &mut msgs), 1);
                made += 1;
            }
        }
    }
    assert_eq!(p.syn_counter(), 1030);
    assert_eq!(msgs.len(), 1);
    match &msgs[0] {
        MessageFrom::GenTimeStamp(id, n, tsc) => {
            assert_eq!(*id, PipelineId { core: 5, port_id: 1, rxq: 2 });
            assert_eq!(*n, 1024);
            assert_eq!(*tsc, 42);
        }
        m => panic!("unexpected message {:?}", m),
    }
}

#[test]
fn manager_allocates_and_recycles() {
    let mut m = ConnectionManager::new(5000, 3);
    assert_eq!(m.tcp_port_base(), 5000);
    assert_eq!(m.pool_size(), 3);
    assert!(m.owns_tcp_port(5002));
    assert!(!m.owns_tcp_port(5003));
    assert!(!m.owns_tcp_port(4999));
    let a = m.create().unwrap();
    let b = m.create().unwrap();
    let c = m.create().unwrap();
    assert_eq!((a, b, c), (5000, 5001, 5002));
    assert!(m.create().is_none());
    let fresh = m.get(5001).unwrap();
    assert_eq!(fresh.con_rec.c_state, TcpState::Closed);
    assert_eq!(fresh.con_rec.s_state, TcpState::Listen);
    let rec = m.release_port(5001).unwrap();
    assert_eq!(rec.proxy_port, 5001);
    assert!(m.release_port(5001).is_none());
    assert!(m.get(5001).is_none());
    assert_eq!(m.create(), Some(5001));
}

#[test]
fn timeout_release_reports_record() {
    let mut p = TcpPipeline::new(engine(), PipelineId { core: 0, port_id: 0, rxq: 0 }, 30000, 2, 1_000_000);
    let mut msgs = Vec::new();
    let mut inj = PacketInjector::new(&engine(), 1);
    let mut f = inj.execute().remove(0);
    p.process_frame_with(&mut f, &ByPort, 7, 0, &mut msgs);
    assert!(p.release_timed_out(30000, &mut msgs));
    assert!(!p.release_timed_out(30000, &mut msgs));
    assert_eq!(msgs.len(), 1);
    match &msgs[0] {
        MessageFrom::CRecord(r) => {
            assert_eq!(r.release_cause, ReleaseCause::Timeout);
            assert_eq!(r.server_id, "s0");
        }
        m => panic!("unexpected message {:?}", m),
    }
}

#[test]
fn segment_classification() {
    let mut t = tcp_header(80, 10000, 0, 0);
    t.psh = false;
    t.syn = true;
    assert_eq!(classify_segment(&t, TcpState::SynReceived, TcpState::SynSent), SegmentAction::SynAckFirst);
    assert_eq!(classify_segment(&t, TcpState::Established, TcpState::Established), SegmentAction::SynAckRepeat);
    assert_eq!(classify_segment(&t, TcpState::FinWait, TcpState::Established), SegmentAction::SynAckIgnored);
    t.syn = false;
    t.fin = true;
    assert_eq!(classify_segment(&t, TcpState::Established, TcpState::FinWait), SegmentAction::FinReply);
    assert_eq!(classify_segment(&t, TcpState::Established, TcpState::Established), SegmentAction::FinServer);
    t.fin = false;
    t.rst = true;
    assert_eq!(classify_segment(&t, TcpState::Established, TcpState::Established), SegmentAction::RstServer);
    t.rst = false;
    assert_eq!(classify_segment(&t, TcpState::FinWait, TcpState::LastAck), SegmentAction::FinalAck);
    assert_eq!(classify_segment(&t, TcpState::SynReceived, TcpState::SynSent), SegmentAction::Unexpected);
}

#[test]
fn unexpected_segment_goes_to_kernel() {
    let mut p = TcpPipeline::new(engine(), PipelineId { core: 0, port_id: 0, rxq: 0 }, 30000, 2, 1_000_000);
    let mut msgs = Vec::new();
    let mut inj = PacketInjector::new(&engine(), 1);
    let mut f = inj.execute().remove(0);
    p.process_frame_with(&mut f, &ByPort, 7, 0, &mut msgs);
    let mut g = f.clone();
    g.mac.etype = 0x0800;
    g.tcp.dst_port = 30000;
    g.tcp.syn = false;
    g.tcp.ack = true;
    assert_eq!(p.process_frame_with(&mut g, &ByPort, 0, 0, &mut msgs), 2);
    assert!(msgs.is_empty());
}

#[test]
fn l2_filter_cases() {
    let me = MacAddr::from_octets([2, 0, 0, 0, 0, 1]);
    assert!(l2_filter(&me, &me));
    assert!(l2_filter(&MacAddr::from_octets([0xff; 6]), &me));
    assert!(l2_filter(&MacAddr::from_octets([0x01, 0x00, 0x5e, 0, 0, 1]), &me));
    assert!(!l2_filter(&MacAddr::from_octets([2, 0, 0, 0, 0, 2]), &me));
    assert_eq!(MacAddr::from_octets([0xff; 6]).bits, 0xFFFF_FFFF_FFFF);
}

#[test]
fn flow_extraction_and_l2_group() {
    let mut tcp: Vec<u8> = vec![
        0x45, 0, 0, 40, 0, 1, 0x40, 0, 64, 6, 0, 0, 10, 0, 0, 2, 10, 0, 0, 1, 0, 80, 0x27, 0x10, 0, 0,
        0, 0,
    ];
    assert_eq!(
        ipv4_extract_flow(&tcp),
        Some(Ipv4Flow { src_ip: 0x0A00_0002, dst_ip: 0x0A00_0001, src_port: 80, dst_port: 10000, proto: 6 })
    );
    assert_eq!(l2_group(&tcp, 0x0A00_0001, 8000, 10000), 1);
    assert_eq!(l2_group(&tcp, 0x0A00_0001, 8000, 10001), 0);
    tcp[22] = 0x1f;
    tcp[23] = 0x40;
    assert_eq!(l2_group(&tcp, 0x0A00_0001, 8000, 10001), 1);
    assert_eq!(l2_group(&tcp, 0x0A00_0003, 8000, 10001), 0);
    assert_eq!(ipv4_extract_flow(&tcp[..19]), None);
    let mut arp = tcp.clone();
    arp[0] = 0x00;
    assert_eq!(ipv4_extract_flow(&arp), None);
    assert_eq!(l2_group(&arp, 0x0A00_0001, 8000, 10000), 0);
}

#[test]
fn kni_core_is_queue_zero() {
    assert!(is_kni_core(0));
    assert!(!is_kni_core(1));
}

#[test]
fn engine_address_parses_config() {
    let me = engine_address("02:00:00:00:00:01", "10.0.0.1/24", 8000).unwrap();
    assert_eq!(me.mac, MacAddr::from_octets([2, 0, 0, 0, 0, 1]));
    assert_eq!(me.ip, 0x0A00_0001);
    assert_eq!(me.port, 8000);
    assert_eq!(me.server_id, "TrafficEngine");
    assert_eq!(engine_address("not a mac", "10.0.0.1/24", 1).unwrap_err(), ConfigError::BadMac);
    assert_eq!(engine_address("02:00:00:00:00:01", "10.0.0.1", 1).unwrap_err(), ConfigError::BadIpNet);
    assert_eq!(engine_address_from(None, Some(1), 1).unwrap_err(), ConfigError::BadMac);
    assert_eq!(engine_address_from(Some([0, 0, 0, 0, 0, 5]), None, 1).unwrap_err(), ConfigError::BadIpNet);
    assert_eq!(engine_address_from(Some([0, 0, 0, 0, 1, 5]), Some(9), 2).unwrap().mac.bits, 0x105);
}

#[test]
fn timer_wheel_expires_due_entries() {
    let mut w = TimerWheel::new(8, 10);
    w.schedule(1, 35);
    w.schedule(2, 95);
    w.schedule(3, 1000);
    w.schedule(4, 36);
    let a = w.advance(50);
    assert_eq!(a.len(), 2);
    assert!(a.contains(&TimerEntry { port: 1, deadline: 35 }));
    assert!(a.contains(&TimerEntry { port: 4, deadline: 36 }));
    assert_eq!(w.advance(94), vec![]);
    assert_eq!(w.advance(99), vec![TimerEntry { port: 2, deadline: 95 }]);
    assert_eq!(w.advance(999), vec![]);
    assert_eq!(w.advance(1000), vec![TimerEntry { port: 3, deadline: 1000 }]);
    assert_eq!(w.advance(5000), vec![]);
}

#[test]
fn timer_wheel_cancel() {
    let mut w = TimerWheel::new(4, 1);
    w.schedule(7, 3);
    w.schedule(8, 3);
    w.schedule(7, 9);
    w.cancel(7);
    assert_eq!(w.advance(100), vec![TimerEntry { port: 8, deadline: 3 }]);
}

#[test]
fn idle_connection_times_out() {
    let mut p = TcpPipeline::new(engine(), PipelineId { core: 0, port_id: 0, rxq: 0 }, 40000, 2, 100);
    let mut msgs = Vec::new();
    let mut inj = PacketInjector::new(&engine(), 1);
    let mut f = inj.execute().remove(0);
    assert_eq!(p.process_frame_with(&mut f, &ByPort, 7, 10, &mut msgs), 1);
    p.expire(50, &mut msgs);
    assert!(msgs.is_empty());
    assert!(p.manager().get(40000).is_some());
    p.expire(200, &mut msgs);
    assert!(p.manager().get(40000).is_none());
    assert_eq!(msgs.len(), 1);
    match &msgs[0] {
        MessageFrom::CRecord(r) => {
            assert_eq!(r.release_cause, ReleaseCause::Timeout);
            assert_eq!(r.proxy_port, 40000);
        }
        m => panic!("unexpected message {:?}", m),
    }
    p.expire(400, &mut msgs);
    assert_eq!(msgs.len(), 1);
}

#[test]
fn all_records_sent_on_flush() {
    let mut p = TcpPipeline::new(engine(), PipelineId { core: 0, port_id: 0, rxq: 0 }, 50000, 3, 1_000);
    let mut msgs = Vec::new();
    let mut inj = PacketInjector::new(&engine(), 1);
    let mut frames = inj.execute();
    for f in frames.iter_mut().take(2) {
        p.process_frame_with(f, &ByPort, 1, 0, &mut msgs);
    }
    let mut out = Vec::new();
    p.send_all_c_records(&mut out);
    assert_eq!(out.len(), 2);
    match (&out[0], &out[1]) {
        (MessageFrom::CRecord(a), MessageFrom::CRecord(b)) => {
            assert_eq!(a.proxy_port, 50000);
            assert_eq!(b.proxy_port, 50001);
            assert_eq!(a.c_state, TcpState::SynSent);
        }
        m => panic!("unexpected messages {:?}", m),
    }
    assert!(p.manager().get(50000).is_some());
}

#[test]
fn frame_parsed_from_bytes() {
    let mut b: Vec<u8> = vec![2, 0, 0, 0, 0, 1, 2, 0, 0, 0, 0, 2, 0x08, 0x00];
    b.extend_from_slice(&[0x45, 0, 0, 44, 0, 7, 0x40, 0, 64, 6, 0x12, 0x34, 10, 0, 0, 2, 10, 0, 0, 1]);
    b.extend_from_slice(&[0, 80, 0x27, 0x10, 0xde, 0xad, 0xbe, 0xef, 0, 0, 0, 1, 0x50, 0x12, 0x72, 0x10, 0xab, 0xcd, 0, 0]);
    b.extend_from_slice(&[1, 2, 3, 4]);
    b.extend_from_slice(&[0, 0]);
    let f = nftraffic::wire::parse_frame(&b).unwrap();
    assert_eq!(f.mac.dst, MacAddr::from_octets([2, 0, 0, 0, 0, 1]));
    assert_eq!(f.mac.src, MacAddr::from_octets([2, 0, 0, 0, 0, 2]));
    assert_eq!(f.mac.etype, 0x0800);
    assert_eq!(f.ip.length, 44);
    assert_eq!(f.ip.id, 7);
    assert_eq!(f.ip.flags, 2);
    assert_eq!(f.ip.ttl, 64);
    assert_eq!(f.ip.checksum, 0x1234);
    assert_eq!(f.ip.src, 0x0A00_0002);
    assert_eq!(f.ip.dst, 0x0A00_0001);
    assert_eq!(f.tcp.src_port, 80);
    assert_eq!(f.tcp.dst_port, 10000);
    assert_eq!(f.tcp.seq_num, 0xDEAD_BEEF);
    assert_eq!(f.tcp.ack_num, 1);
    assert_eq!(f.tcp.data_offset, 5);
    assert!(f.tcp.syn && f.tcp.ack && !f.tcp.fin && !f.tcp.rst && !f.tcp.psh);
    assert_eq!(f.tcp.window, 0x7210);
    assert_eq!(f.tcp.checksum, 0xabcd);
    assert_eq!(f.payload, vec![1, 2, 3, 4]);
    let mut udp = b.clone();
    udp[23] = 17;
    assert!(nftraffic::wire::parse_frame(&udp).is_none());
    assert!(nftraffic::wire::parse_frame(&b[..50]).is_none());
}

#[test]
fn injector_prototype_moves_on_by_a_burst() {
    let mut inj = PacketInjector::new(&engine(), 1);
    let a = inj.execute();
    assert_eq!(a.len(), 16);
    for (k, f) in a.iter().enumerate() {
        assert_eq!(f.tcp.src_port, 8000 + k as u16);
        assert!(f.tcp.syn && !f.tcp.ack && !f.tcp.fin && !f.tcp.rst && !f.tcp.psh && !f.tcp.urg);
        assert_eq!(f.tcp.data_offset, 5);
    }
    // no burst is due any more: nothing changes
    assert!(inj.execute().is_empty());
    let next = inj.create_packet();
    assert_eq!(next.tcp.src_port, 8016);
    assert!(next.tcp.syn && !next.tcp.ack && !next.tcp.fin && !next.tcp.rst);
    assert_eq!(next.mac.etype, 0x08FF);
    assert_eq!(next.ip.src, 0x0A00_0001);
    assert_eq!(next.ip.protocol, 6);
}

#[test]
fn injector_source_port_wraps() {
    let mut me = engine();
    me.port = 65530;
    let mut inj = PacketInjector::new(&me, 0);
    let a = inj.execute();
    assert_eq!(a[5].tcp.src_port, 65535);
    assert_eq!(a[6].tcp.src_port, 0);
    assert_eq!(inj.create_packet().tcp.src_port, 10);
}

#[test]
fn expire_reports_each_due_connection_once() {
    let mut p = TcpPipeline::new(engine(), PipelineId { core: 0, port_id: 0, rxq: 0 }, 60000, 3, 100);
    let mut msgs = Vec::new();
    let mut inj = PacketInjector::new(&engine(), 1);
    let mut frames = inj.execute();
    p.process_frame_with(&mut frames[0], &ByPort, 1, 10, &mut msgs);
    p.process_frame_with(&mut frames[1], &ByPort, 2, 10, &mut msgs);
    p.process_frame_with(&mut frames[2], &ByPort, 3, 500, &mut msgs);
    let due = p.expire(300, &mut msgs);
    assert_eq!(due.len(), 2);
    assert_eq!(msgs.len(), 2);
    let mut ports = Vec::new();
    for m in &msgs {
        match m {
            MessageFrom::CRecord(r) => {
                assert_eq!(r.release_cause, ReleaseCause::Timeout);
                ports.push(r.proxy_port);
            }
            m => panic!("unexpected message {:?}", m),
        }
    }
    ports.sort();
    assert_eq!(ports, vec![60000, 60001]);
    assert!(p.manager().get(60002).is_some());
    assert!(p.manager().get(60000).is_none());
}

use nftraffic::connection::{Connection, L234Address, ReleaseCause, TcpState};
use nftraffic::headers::{Frame, IpHeader, MacAddr, MacHeader, TcpHeader};
use nftraffic::injector::PacketInjector;
use nftraffic::pipeline::{MessageFrom, PipelineId, ServerSelector, TcpPipeline};

const ENGINE_IP: u32 = 0x0A00_0001;
const SERVER_IP: u32 = 0x0A00_0002;

struct FixedServer {
    server: L234Address,
}

impl ServerSelector for FixedServer {
    fn select_server(&self, _c: &Connection) -> L234Address {
        self.server.clone()
    }
}

fn engine() -> L234Address {
    L234Address {
        mac: MacAddr::from_octets([2, 0, 0, 0, 0, 1]),
        ip: ENGINE_IP,
        port: 8000,
        server_id: "TrafficEngine".to_string(),
    }
}

fn selector() -> FixedServer {
    FixedServer {
        server: L234Address {
            mac: MacAddr::from_octets([2, 0, 0, 0, 0, 2]),
            ip: SERVER_IP,
            port: 80,
            server_id: "server1".to_string(),
        },
    }
}

fn pipeline(pool_size: u16) -> TcpPipeline {
    TcpPipeline::new(engine(), PipelineId { core: 3, port_id: 0, rxq: 0 }, 10000, pool_size, 1_000_000)
}

fn ip_valid(h: &IpHeader) -> bool {
    let mut c = *h;
    c.update_checksum();
    c.checksum == h.checksum
}

/// A segment from the server to the engine, with a correct TCP checksum.
fn server_segment(dst_port: u16, seq: u32, ack: u32, flags: &str) -> Frame {
    let tcp = TcpHeader {
        src_port: 80,
        dst_port,
        seq_num: seq,
        ack_num: ack,
        data_offset: 5,
        ns: false,
        cwr: false,
        ece: false,
        urg: false,
        ack: flags.contains('A'),
        psh: false,
        rst: flags.contains('R'),
        syn: flags.contains('S'),
        fin: flags.contains('F'),
        window: 29200,
        checksum: 0,
        urgent: 0,
    };
    let mut ip = IpHeader {
        version: 4,
        ihl: 5,
        tos: 0,
        length: 40,
        id: 7,
        flags: 2,
        frag_offset: 0,
        ttl: 64,
        protocol: 6,
        checksum: 0,
        src: SERVER_IP,
        dst: ENGINE_IP,
    };
    ip.update_checksum();
    let mut f = Frame {
        mac: MacHeader {
            dst: MacAddr::from_octets([2, 0, 0, 0, 0, 1]),
            src: MacAddr::from_octets([2, 0, 0, 0, 0, 2]),
            etype: 0x0800,
        },
        ip,
        tcp,
        payload: Vec::new(),
    };
    f.update_tcp_checksum();
    f
}

/// Runs scenario one: one injector tick into a pool of one port.
fn single_syn(p: &mut TcpPipeline, msgs: &mut Vec<MessageFrom>) -> Frame {
    let mut inj = PacketInjector::new(&engine(), 0);
    let frames = inj.execute();
    assert_eq!(frames.len(), 16);
    let sel = selector();
    let mut first = None;
    for (k, mut f) in frames.into_iter().enumerate() {
        let g = p.process_frame_with(&mut f, &sel, 0x1234_5678, 99, msgs);
        if k == 0 {
            assert_eq!(g, 1);
            first = Some(f);
        } else {
            assert_eq!(g, 0);
        }
    }
    first.unwrap()
}

#[test]
fn single_syn_emission() {
    let mut p = pipeline(1);
    let mut msgs = Vec::new();
    let syn = single_syn(&mut p, &mut msgs);
    assert_eq!(syn.mac.etype, 0x0800);
    assert_eq!(syn.mac.src, MacAddr::from_octets([2, 0, 0, 0, 0, 1]));
    assert_eq!(syn.mac.dst, MacAddr::from_octets([2, 0, 0, 0, 0, 2]));
    assert_eq!(syn.ip.src, ENGINE_IP);
    assert_eq!(syn.tcp.src_port, 10000);
    assert_eq!(syn.ip.dst, SERVER_IP);
    assert_eq!(syn.tcp.dst_port, 80);
    assert!(syn.tcp.syn && !syn.tcp.ack && !syn.tcp.fin && !syn.tcp.rst && !syn.tcp.psh);
    assert_eq!(syn.tcp.seq_num, 0x1234_5678);
    assert_eq!(syn.tcp.ack_num, 0);
    assert_eq!(syn.tcp.window, 5840);
    assert_eq!(syn.ip.ttl, 127);
    assert!(ip_valid(&syn.ip));
    assert_eq!(syn.tcp.checksum, syn.tcp_checksum());
    let c = p.manager().get(10000).unwrap();
    assert_eq!(c.con_rec.c_state, TcpState::SynSent);
    assert_eq!(c.con_rec.s_state, TcpState::SynReceived);
    assert_eq!(c.con_rec.server_id, "server1");
    assert_eq!(c.c_seqn, 0x1234_5678);
    assert!(msgs.is_empty());
    assert_eq!(p.syn_counter(), 1);
}

fn handshake(p: &mut TcpPipeline, msgs: &mut Vec<MessageFrom>) {
    single_syn(p, msgs);
    let c_seqn = p.manager().get(10000).unwrap().c_seqn;
    let mut f = server_segment(10000, 0xDEAD_BEEF, c_seqn.wrapping_add(1), "SA");
    let g = p.process_frame_with(&mut f, &selector(), 0, 0, msgs);
    assert_eq!(g, 1);
    assert_eq!(f.ip.src, ENGINE_IP);
    assert_eq!(f.tcp.src_port, 10000);
    assert_eq!(f.ip.dst, SERVER_IP);
    assert_eq!(f.tcp.dst_port, 80);
    assert_eq!(f.mac.dst, MacAddr::from_octets([2, 0, 0, 0, 0, 2]));
    assert!(f.tcp.ack && !f.tcp.syn);
    assert_eq!(f.tcp.seq_num, c_seqn.wrapping_add(1));
    assert_eq!(f.tcp.ack_num, 0xDEAD_BEF0);
    assert_eq!(f.tcp.checksum, f.tcp_checksum());
    assert!(ip_valid(&f.ip));
}

#[test]
fn handshake_completion() {
    let mut p = pipeline(1);
    let mut msgs = Vec::new();
    handshake(&mut p, &mut msgs);
    assert_eq!(msgs.len(), 1);
    match &msgs[0] {
        MessageFrom::Established(r) => {
            assert_eq!(r.proxy_port, 10000);
            assert_eq!(r.c_state, TcpState::Established);
            assert_eq!(r.s_state, TcpState::Established);
        }
        m => panic!("unexpected message {:?}", m),
    }
    let c = p.manager().get(10000).unwrap();
    assert_eq!(c.con_rec.c_state, TcpState::Established);
    assert_eq!(c.con_rec.s_state, TcpState::Established);
}

#[test]
fn server_rst() {
    let mut p = pipeline(1);
    let mut msgs = Vec::new();
    handshake(&mut p, &mut msgs);
    let mut f = server_segment(10000, 0xDEAD_BEF0, 0, "R");
    p.process_frame_with(&mut f, &selector(), 0, 0, &mut msgs);
    assert_eq!(msgs.len(), 2);
    match &msgs[1] {
        MessageFrom::CRecord(r) => {
            assert_eq!(r.release_cause, ReleaseCause::RstServer);
            assert_eq!(r.proxy_port, 10000);
        }
        m => panic!("unexpected message {:?}", m),
    }
    assert!(p.manager().get(10000).is_none());
    let mut g = server_segment(10000, 1, 1, "A");
    assert_eq!(p.process_frame_with(&mut g, &selector(), 0, 0, &mut msgs), 2);
    assert_eq!(msgs.len(), 2);
}

#[test]
fn server_fin_then_ack() {
    let mut p = pipeline(1);
    let mut msgs = Vec::new();
    handshake(&mut p, &mut msgs);
    let mut fin = server_segment(10000, 0xDEAD_BEF0, 0, "FA");
    p.process_frame_with(&mut fin, &selector(), 0, 0, &mut msgs);
    assert_eq!(p.manager().get(10000).unwrap().con_rec.s_state, TcpState::FinWait);
    assert!(p.client_fin_sent(10000));
    let mut ack = server_segment(10000, 0xDEAD_BEF1, 0, "A");
    p.process_frame_with(&mut ack, &selector(), 0, 0, &mut msgs);
    assert!(p.manager().get(10000).is_none());
    assert_eq!(msgs.len(), 2);
    match &msgs[1] {
        MessageFrom::CRecord(r) => assert_eq!(r.release_cause, ReleaseCause::FinServer),
        m => panic!("unexpected message {:?}", m),
    }
}

#[test]
fn unknown_dst_port() {
    let mut p = pipeline(2);
    let mut msgs = Vec::new();
    let mut f = server_segment(10001, 5, 6, "A");
    let before = f.clone();
    assert_eq!(p.process_frame_with(&mut f, &selector(), 0, 0, &mut msgs), 2);
    assert!(msgs.is_empty());
    assert!(p.manager().get(10001).is_none());
    assert!(p.manager().get(10000).is_none());
    assert_eq!(f.tcp, before.tcp);
    assert_eq!(f.ip.ttl, before.ip.ttl - 1);
}

#[test]
fn non_proxy_ip_traffic() {
    // UDP from 10.0.0.2:5353 to 10.0.0.1:53
    let udp: Vec<u8> = vec![
        0x45, 0, 0, 28, 0, 1, 0, 0, 64, 17, 0, 0, 10, 0, 0, 2, 10, 0, 0, 1, 0x14, 0xE9, 0, 53, 0, 8,
        0, 0,
    ];
    let before = udp.clone();
    assert_eq!(nftraffic::classify::l2_group(&udp, ENGINE_IP, 8000, 10000), 0);
    assert_eq!(udp, before);
}

#[test]
fn established_segment_is_translated() {
    let mut p = pipeline(1);
    let mut msgs = Vec::new();
    handshake(&mut p, &mut msgs);
    let c_seqn = p.manager().get(10000).unwrap().c_seqn;
    let mut f = server_segment(10000, 0xDEAD_BEF0, 7, "A");
    f.tcp.psh = true;
    f.payload = b"hello".to_vec();
    f.update_tcp_checksum();
    assert_eq!(p.process_frame_with(&mut f, &selector(), 0, 0, &mut msgs), 1);
    assert_eq!(f.mac.dst, MacAddr::from_octets([2, 0, 0, 0, 0, 1]));
    assert_eq!(f.mac.src, MacAddr::from_octets([2, 0, 0, 0, 0, 1]));
    assert_eq!(f.ip.src, ENGINE_IP);
    assert_eq!(f.ip.dst, ENGINE_IP);
    assert_eq!(f.tcp.src_port, 8000);
    assert_eq!(f.tcp.dst_port, 8000);
    assert_eq!(f.tcp.seq_num, 0xDEAD_BEF0u32.wrapping_add(c_seqn));
    assert_eq!(f.tcp.ack_num, 7);
    assert_eq!(f.tcp.checksum, f.tcp_checksum());
    assert!(ip_valid(&f.ip));
    assert_eq!(f.ip.ttl, 63);
    assert_eq!(msgs.len(), 1);
}

#[test]
fn random_sequence_number_syn() {
    let mut p = pipeline(1);
    let mut msgs = Vec::new();
    let mut inj = PacketInjector::new(&engine(), 1);
    let mut f = inj.execute().remove(0);
    assert_eq!(p.process_frame(&mut f, &selector(), 0, &mut msgs), 1);
    let c = p.manager().get(10000).unwrap();
    assert_eq!(f.tcp.seq_num, c.c_seqn);
    assert_eq!(f.tcp.checksum, f.tcp_checksum());
    assert!(ip_valid(&f.ip));
}

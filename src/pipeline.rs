//! The per-frame TCP state machine of one pipeline: injector frames become
//! SYNs towards a selected server, server segments advance the connection
//! and are answered, translated, dropped or handed to the kernel.
use vstd::prelude::*;
use vstd::wrapping::u32_specs;
use crate::cmanager::ConnectionManager;
use crate::connection::{Connection, ConnectionRecord, L234Address, ReleaseCause, TcpState};
use crate::headers::{ip_checksum_valid, Frame, IpHeader, TcpHeader};
use crate::timer_wheel::{TimerEntry, TimerWheel};
use crate::rewrite::{
    generate_syn,
    same_but_checksums,
    server_synack_received,
    server_to_client,
    spec_server_to_client,
    spec_syn_frame,
    spec_synack_reply,
};

verus! {

/// Ethertype that marks a frame made by the injector, to be turned into a SYN.
pub const PRIVATE_ETYPE_TAG: u16 = 0x08FF;

/// Group of a frame that is dropped.
pub const GROUP_DROP: usize = 0;

/// Group of a frame that is sent out on the NIC.
pub const GROUP_NIC: usize = 1;

/// Group of a frame that is handed to the kernel interface.
pub const GROUP_KNI: usize = 2;

/// A GenTimeStamp message goes out each time the SYN count reaches a
/// multiple of this.
pub const TIMESTAMP_EVERY: u64 = 1024;

/// A PrintPerformance message goes out each time the SYN count reaches a
/// multiple of this.
pub const PERFORMANCE_EVERY: u64 = 8192;

/// Slots of the timeout wheel.
pub const WHEEL_SLOTS: usize = 128;

/// Time units per slot of the timeout wheel.
pub const WHEEL_GRANULARITY: u64 = 16;

/// Identifies a pipeline: the core it runs on, its port and receive queue.
#[derive(Clone, Copy, Debug, PartialEq, Eq, Structural)]
pub struct PipelineId {
    pub core: u16,
    pub port_id: u16,
    pub rxq: u16,
}

/// A message from a pipeline to the controller.
#[derive(Debug)]
pub enum MessageFrom {
    Established(ConnectionRecord),
    CRecord(ConnectionRecord),
    GenTimeStamp(PipelineId, u64, u64),
    PrintPerformance(Vec<i32>),
}

/// Chooses the server a new connection goes to.
pub trait ServerSelector {
    fn select_server(&self, c: &Connection) -> L234Address;
}

/// What a server segment means for its connection.
#[derive(Clone, Copy, Debug, PartialEq, Eq, Structural)]
pub enum SegmentAction {
    /// The server's SYN-ACK to our SYN.
    SynAckFirst,
    /// A repeated SYN-ACK on an established connection.
    SynAckRepeat,
    /// A SYN-ACK in any other state.
    SynAckIgnored,
    /// The server's FIN answering ours.
    FinReply,
    /// The server closes.
    FinServer,
    /// The server resets.
    RstServer,
    /// The server acknowledges the last FIN.
    FinalAck,
    /// Nothing the state machine handles.
    Unexpected,
}

pub open spec fn spec_classify(t: TcpHeader, s: TcpState, c: TcpState) -> SegmentAction {
    if t.ack && t.syn {
        if s == TcpState::SynReceived {
            SegmentAction::SynAckFirst
        } else if s == TcpState::Established {
            SegmentAction::SynAckRepeat
        } else {
            SegmentAction::SynAckIgnored
        }
    } else if t.fin {
        if c.spec_at_least(TcpState::FinWait) {
            SegmentAction::FinReply
        } else {
            SegmentAction::FinServer
        }
    } else if t.rst {
        SegmentAction::RstServer
    } else if c == TcpState::LastAck && t.ack {
        SegmentAction::FinalAck
    } else {
        SegmentAction::Unexpected
    }
}

/// Classifies a server segment by its flags and the connection's server
/// state `s` and client state `c`.
pub fn classify_segment(t: &TcpHeader, s: TcpState, c: TcpState) -> (r: SegmentAction)
    ensures
        r == spec_classify(*t, s, c),
{
    if t.ack && t.syn {
        if s == TcpState::SynReceived {
            SegmentAction::SynAckFirst
        } else if s == TcpState::Established {
            SegmentAction::SynAckRepeat
        } else {
            SegmentAction::SynAckIgnored
        }
    } else if t.fin {
        if c.at_least(TcpState::FinWait) {
            SegmentAction::FinReply
        } else {
            SegmentAction::FinServer
        }
    } else if t.rst {
        SegmentAction::RstServer
    } else if c == TcpState::LastAck && t.ack {
        SegmentAction::FinalAck
    } else {
        SegmentAction::Unexpected
    }
}

/// Client and server state after action `a` from client state `c` and
/// server state `s`.
pub open spec fn spec_next_states(a: SegmentAction, c: TcpState, s: TcpState) -> (TcpState, TcpState) {
    match a {
        SegmentAction::SynAckFirst => (TcpState::Established, TcpState::Established),
        SegmentAction::FinReply => (TcpState::Closed, TcpState::LastAck),
        SegmentAction::FinServer => (c, TcpState::FinWait),
        SegmentAction::RstServer => (TcpState::Listen, TcpState::Closed),
        SegmentAction::FinalAck => (TcpState::Listen, TcpState::Closed),
        _ => (c, s),
    }
}

/// Why action `a` releases the connection, if it does.
pub open spec fn spec_release(a: SegmentAction) -> Option<ReleaseCause> {
    match a {
        SegmentAction::RstServer => Some(ReleaseCause::RstServer),
        SegmentAction::FinalAck => Some(ReleaseCause::FinServer),
        _ => None,
    }
}

pub open spec fn is_synack_answered(a: SegmentAction) -> bool {
    a == SegmentAction::SynAckFirst || a == SegmentAction::SynAckRepeat
}

/// Once both directions were established, every server segment is
/// translated for the client.
pub open spec fn spec_translates(s: TcpState, c: TcpState) -> bool {
    s.spec_at_least(TcpState::Established) && c.spec_at_least(TcpState::Established)
}

/// The group of a server segment that causes action `a` in server state `s`
/// and client state `c`.
pub open spec fn spec_group(a: SegmentAction, s: TcpState, c: TcpState) -> usize {
    if spec_translates(s, c) {
        GROUP_NIC
    } else if is_synack_answered(a) {
        GROUP_NIC
    } else if a == SegmentAction::Unexpected {
        GROUP_KNI
    } else {
        GROUP_DROP
    }
}

/// Connection `c0` after action `a`.
pub open spec fn spec_conn_after(c0: Connection, a: SegmentAction) -> Connection {
    let states = spec_next_states(a, c0.con_rec.c_state, c0.con_rec.s_state);
    Connection {
        c_seqn: if a == SegmentAction::SynAckFirst {
            u32_specs::wrapping_add(c0.c_seqn, 1)
        } else {
            c0.c_seqn
        },
        con_rec: ConnectionRecord {
            c_state: states.0,
            s_state: states.1,
            release_cause: match spec_release(a) {
                Some(cause) => cause,
                None => c0.con_rec.release_cause,
            },
            ..c0.con_rec
        },
        ..c0
    }
}

/// Server segment `o` after action `a` on connection `c0`, before the hop.
pub open spec fn spec_frame_after(o: Frame, c0: Connection, a: SegmentAction, me: L234Address) -> Frame {
    let c1 = spec_conn_after(c0, a);
    let f1 = if is_synack_answered(a) {
        spec_synack_reply(o, c1.c_seqn)
    } else {
        o
    };
    if spec_translates(c0.con_rec.s_state, c0.con_rec.c_state) {
        spec_server_to_client(f1, c1, me)
    } else {
        f1
    }
}

/// The time to live after one hop: one less, but never below zero.
pub open spec fn spec_ttl_after(ttl: u8) -> u8 {
    if ttl >= 1 {
        (ttl - 1) as u8
    } else {
        0
    }
}

/// Frame `f` with its time to live decremented.
pub open spec fn spec_hop(f: Frame) -> Frame {
    Frame { ip: IpHeader { ttl: spec_ttl_after(f.ip.ttl), ..f.ip }, ..f }
}

/// The connection made for injector frame `o` on `port`, with the server
/// chosen and `seqn` as initial sequence number.
pub open spec fn spec_new_connection(o: Frame, port: u16, server: L234Address, seqn: u32) -> Connection {
    Connection {
        proxy_port: port,
        client_mac: o.mac.src,
        client_ip: o.ip.src,
        client_port: o.tcp.src_port,
        server: Some(server),
        c_seqn: seqn,
        c2s_inserted_bytes: 0,
        con_rec: ConnectionRecord {
            client_ip: o.ip.src,
            client_port: o.tcp.src_port,
            proxy_port: port,
            server_id: server.server_id,
            c_state: TcpState::SynSent,
            s_state: TcpState::SynReceived,
            release_cause: ReleaseCause::Unreleased,
        },
    }
}

/// The messages that counting SYN number `n` sends, after `m`.
pub open spec fn spec_syn_messages(m0: Seq<MessageFrom>, m1: Seq<MessageFrom>, id: PipelineId, n: u64, tsc: u64) -> bool {
    if n % TIMESTAMP_EVERY != 0 {
        m1 == m0
    } else if n % PERFORMANCE_EVERY != 0 {
        m1 == m0.push(MessageFrom::GenTimeStamp(id, n, tsc))
    } else {
        &&& m1.len() == m0.len() + 2
        &&& m1.subrange(0, m0.len() as int) == m0
        &&& m1[m0.len() as int] == MessageFrom::GenTimeStamp(id, n, tsc)
        &&& (match m1[m0.len() + 1int] {
            MessageFrom::PrintPerformance(cores) => cores@ == seq![id.core as i32],
            _ => false,
        })
    }
}

/// Relies on rand::random: a uniformly drawn `u32`; nothing is promised of
/// its value.
#[verifier::external_body]
fn random_seqn() -> (r: u32) {
    rand::random::<u32>()
}

/// The TCP proxy state of one pipeline.
pub struct TcpPipeline {
    me: L234Address,
    pipeline_id: PipelineId,
    sm: ConnectionManager,
    syn_counter: u64,
    wheel: TimerWheel,
    timeout: u64,
}

/// What processing injector frame `f0` did.
pub open spec fn injected_outcome(
    s0: TcpPipeline,
    s1: TcpPipeline,
    f0: Frame,
    f1: Frame,
    m0: Seq<MessageFrom>,
    m1: Seq<MessageFrom>,
    group: usize,
    seqn: u32,
    tsc: u64,
) -> bool {
    if s0.spec_sm().spec_full() {
        &&& group == GROUP_DROP
        &&& s1.spec_sm().spec_slots() == s0.spec_sm().spec_slots()
        &&& s1.spec_syn_counter() == s0.spec_syn_counter()
        &&& m1 == m0
        &&& same_but_checksums(f1, spec_hop(f0))
        &&& f1.tcp.checksum == f0.tcp.checksum
    } else {
        let p = f1.tcp.src_port;
        let c = s1.spec_sm().spec_conn(p);
        let server = c.server.unwrap();
        let n = u64_wrapping_inc(s0.spec_syn_counter());
        &&& group == GROUP_NIC
        &&& s0.spec_sm().spec_owns(p)
        &&& !s0.spec_sm().spec_live(p)
        &&& c.server is Some
        &&& c == spec_new_connection(f0, p, server, seqn)
        &&& s1.spec_sm().spec_slots() == s0.spec_sm().spec_slots().update(
            p - s0.spec_sm().spec_base(),
            Some(c),
        )
        &&& same_but_checksums(f1, spec_hop(spec_syn_frame(f0, p, server, s0.spec_me(), seqn)))
        &&& f1.tcp_checksum_valid()
        &&& s1.spec_syn_counter() == n
        &&& spec_syn_messages(m0, m1, s0.spec_pipeline_id(), n, tsc)
    }
}

/// What processing server segment `f0` did.
pub open spec fn server_outcome(
    s0: TcpPipeline,
    s1: TcpPipeline,
    f0: Frame,
    f1: Frame,
    m0: Seq<MessageFrom>,
    m1: Seq<MessageFrom>,
    group: usize,
) -> bool {
    let p = f0.tcp.dst_port;
    let sm0 = s0.spec_sm();
    &&& s1.spec_syn_counter() == s0.spec_syn_counter()
    &&& if !sm0.spec_live(p) {
        &&& group == GROUP_KNI
        &&& s1.spec_sm().spec_slots() == sm0.spec_slots()
        &&& m1 == m0
        &&& same_but_checksums(f1, spec_hop(f0))
        &&& f1.tcp.checksum == f0.tcp.checksum
    } else {
        let c0 = sm0.spec_conn(p);
        let a = spec_classify(f0.tcp, c0.con_rec.s_state, c0.con_rec.c_state);
        let c1 = spec_conn_after(c0, a);
        &&& group == spec_group(a, c0.con_rec.s_state, c0.con_rec.c_state)
        &&& same_but_checksums(f1, spec_hop(spec_frame_after(f0, c0, a, s0.spec_me())))
        &&& is_synack_answered(a) ==> f1.tcp_checksum_valid()
        &&& !is_synack_answered(a) && !spec_translates(c0.con_rec.s_state, c0.con_rec.c_state)
            ==> f1.tcp.checksum == f0.tcp.checksum
        &&& match spec_release(a) {
            Some(_) => {
                &&& s1.spec_sm().spec_slots() == sm0.spec_slots().update(p - sm0.spec_base(), None)
                &&& m1 == m0.push(MessageFrom::CRecord(c1.con_rec))
            },
            None => {
                &&& s1.spec_sm().spec_slots() == sm0.spec_slots().update(p - sm0.spec_base(), Some(c1))
                &&& m1 == if a == SegmentAction::SynAckFirst {
                    m0.push(MessageFrom::Established(c1.con_rec))
                } else {
                    m0
                }
            },
        }
    }
}

/// One `CRecord` message for each live connection among `slots`, in order.
pub open spec fn spec_record_messages(slots: Seq<Option<Connection>>) -> Seq<MessageFrom>
    decreases slots.len(),
{
    if slots.len() == 0 {
        Seq::empty()
    } else {
        let rest = spec_record_messages(slots.drop_last());
        match slots.last() {
            Some(c) => rest.push(MessageFrom::CRecord(c.con_rec)),
            None => rest,
        }
    }
}

/// Releasing, in order, the connections of the due timeouts `due` from
/// `slots` (ports from `base` on): the slots left, and one `CRecord` with
/// cause `Timeout` for each connection that was still live.
pub open spec fn spec_timeout_run(slots: Seq<Option<Connection>>, base: u16, due: Seq<TimerEntry>) -> (
    Seq<Option<Connection>>,
    Seq<MessageFrom>,
)
    decreases due.len(),
{
    if due.len() == 0 {
        (slots, Seq::empty())
    } else {
        let prev = spec_timeout_run(slots, base, due.drop_last());
        let i = due.last().port - base;
        if 0 <= i < prev.0.len() && prev.0[i] is Some {
            (
                prev.0.update(i, None),
                prev.1.push(
                    MessageFrom::CRecord(
                        ConnectionRecord { release_cause: ReleaseCause::Timeout, ..prev.0[i].unwrap().con_rec },
                    ),
                ),
            )
        } else {
            prev
        }
    }
}

pub open spec fn u64_wrapping_inc(n: u64) -> u64 {
    if n == u64::MAX {
        0
    } else {
        (n + 1) as u64
    }
}

impl TcpPipeline {
    pub closed spec fn spec_me(&self) -> L234Address {
        self.me
    }

    pub closed spec fn spec_pipeline_id(&self) -> PipelineId {
        self.pipeline_id
    }

    pub fn me(&self) -> (r: &L234Address)
        ensures
            *r == self.spec_me(),
    {
        &self.me
    }

    pub fn pipeline_id(&self) -> (r: PipelineId)
        ensures
            r == self.spec_pipeline_id(),
    {
        self.pipeline_id
    }

    pub closed spec fn spec_sm(&self) -> ConnectionManager {
        self.sm
    }

    pub closed spec fn spec_syn_counter(&self) -> u64 {
        self.syn_counter
    }

    pub closed spec fn spec_wheel(&self) -> TimerWheel {
        self.wheel
    }

    pub closed spec fn spec_timeout(&self) -> u64 {
        self.timeout
    }

    pub open spec fn wf(&self) -> bool {
        &&& self.spec_sm().wf()
        &&& self.spec_wheel().wf()
        &&& self.spec_wheel().spec_granularity() == WHEEL_GRANULARITY
        &&& self.spec_timed()
    }

    /// Every live connection has a pending timeout.
    pub open spec fn spec_timed(&self) -> bool {
        forall|p: u16|
            #[trigger] self.spec_sm().spec_live(p) ==> exists|e: TimerEntry|
                #[trigger] self.spec_wheel().spec_has(e) && e.port == p
    }

    /// `now` is not earlier than the time the timeouts were last advanced to.
    pub open spec fn spec_time_ok(&self, now: u64) -> bool {
        now / WHEEL_GRANULARITY >= self.spec_wheel().spec_now_tick()
    }

    /// The pipeline stays the same pipeline: same endpoint, identity and pool.
    pub open spec fn same_setup(&self, o: TcpPipeline) -> bool {
        &&& self.spec_me() == o.spec_me()
        &&& self.spec_pipeline_id() == o.spec_pipeline_id()
        &&& self.spec_sm().spec_base() == o.spec_sm().spec_base()
        &&& self.spec_sm().spec_pool_size() == o.spec_sm().spec_pool_size()
        &&& self.spec_timeout() == o.spec_timeout()
    }

    /// A pipeline for endpoint `me` with proxy ports
    /// `tcp_port_base .. tcp_port_base + pool_size`, all free.
    pub fn new(me: L234Address, pipeline_id: PipelineId, tcp_port_base: u16, pool_size: u16, timeout: u64) -> (r: TcpPipeline)
        requires
            tcp_port_base as int + pool_size as int <= 65536,
        ensures
            r.wf(),
            r.spec_me() == me,
            r.spec_pipeline_id() == pipeline_id,
            r.spec_sm().spec_base() == tcp_port_base,
            r.spec_sm().spec_pool_size() == pool_size,
            forall|p: u16| !r.spec_sm().spec_live(p),
            r.spec_syn_counter() == 0,
            r.spec_timeout() == timeout,
            r.spec_time_ok(0),
    {
        TcpPipeline {
            me,
            pipeline_id,
            sm: ConnectionManager::new(tcp_port_base, pool_size),
            syn_counter: 0,
            wheel: TimerWheel::new(WHEEL_SLOTS, WHEEL_GRANULARITY),
            timeout,
        }
    }

    pub fn manager(&self) -> (r: &ConnectionManager)
        ensures
            *r == self.spec_sm(),
    {
        &self.sm
    }

    pub fn syn_counter(&self) -> (r: u64)
        ensures
            r == self.spec_syn_counter(),
    {
        self.syn_counter
    }

    /// Counts one more SYN and sends the periodic messages that are due.
    fn count_syn(&mut self, tsc: u64, msgs: &mut Vec<MessageFrom>)
        ensures
            final(self).syn_counter == u64_wrapping_inc(old(self).syn_counter),
            final(self).sm == old(self).sm,
            final(self).wheel == old(self).wheel,
            final(self).timeout == old(self).timeout,
            final(self).me == old(self).me,
            final(self).pipeline_id == old(self).pipeline_id,
            spec_syn_messages(old(msgs)@, final(msgs)@, old(self).pipeline_id, final(self).syn_counter, tsc),
    {
        self.syn_counter = self.syn_counter.wrapping_add(1);
        let n = self.syn_counter;
        if n % TIMESTAMP_EVERY == 0 {
            msgs.push(MessageFrom::GenTimeStamp(self.pipeline_id, n, tsc));
            if n % PERFORMANCE_EVERY == 0 {
                let ghost before = msgs@;
                let mut cores: Vec<i32> = Vec::new();
                cores.push(self.pipeline_id.core as i32);
                msgs.push(MessageFrom::PrintPerformance(cores));
                proof {
                    assert(before == old(msgs)@.push(MessageFrom::GenTimeStamp(self.pipeline_id, n, tsc)));
                    assert(msgs@.subrange(0, old(msgs)@.len() as int) =~= old(msgs)@);
                    assert(cores@ =~= seq![self.pipeline_id.core as i32]);
                }
            }
        }
    }

    /// Turns injector frame `f` into a SYN for a new connection, if a proxy
    /// port is free; else the frame is dropped.
    fn process_injected<S: ServerSelector>(
        &mut self,
        f: &mut Frame,
        selector: &S,
        seqn: u32,
        tsc: u64,
        msgs: &mut Vec<MessageFrom>,
    ) -> (group: usize)
        requires
            old(self).wf(),
            old(f).wf(),
            old(self).spec_time_ok(tsc),
        ensures
            final(self).wf(),
            final(f).wf(),
            final(self).same_setup(*old(self)),
            final(self).spec_wheel().spec_now_tick() == old(self).spec_wheel().spec_now_tick(),
            injected_outcome(*old(self), *final(self), *old(f), *final(f), old(msgs)@, final(msgs)@, group, seqn, tsc),
            ip_checksum_valid(final(f).ip),
            final(f).ip.ttl == spec_ttl_after(old(f).ip.ttl),
            old(f).tcp_checksum_valid() ==> final(f).tcp_checksum_valid(),
    {
        let ghost f0 = *f;
        let ghost s0 = *self;
        let group = match self.sm.create() {
            None => {
                proof {
                    assert forall|q: u16| #[trigger] self.spec_sm().spec_live(q) implies exists|e: TimerEntry|
                        #[trigger] self.spec_wheel().spec_has(e) && e.port == q by {
                        assert(s0.spec_sm().spec_live(q));
                        let e = choose|e: TimerEntry| #[trigger] s0.spec_wheel().spec_has(e) && e.port == q;
                        assert(self.spec_wheel().spec_has(e));
                    }
                }
                GROUP_DROP
            },
            Some(p) => {
                let mut c = Connection::new(p);
                c.client_mac = f.mac.src;
                c.client_ip = f.ip.src;
                c.client_port = f.tcp.src_port;
                c.con_rec.client_ip = f.ip.src;
                c.con_rec.client_port = f.tcp.src_port;
                let server = selector.select_server(&c);
                generate_syn(f, &mut c, server, &self.me, seqn);
                c.con_rec.c_state = TcpState::SynSent;
                c.con_rec.s_state = TcpState::SynReceived;
                let ghost cc = c;
                let _ = self.sm.replace(c);
                let deadline = tsc.saturating_add(self.timeout);
                proof {
                    vstd::arithmetic::div_mod::lemma_div_is_ordered(tsc as int, deadline as int, WHEEL_GRANULARITY as int);
                }
                self.wheel.schedule(p, deadline);
                proof {
                    assert forall|q: u16| #[trigger] self.spec_sm().spec_live(q) implies exists|e: TimerEntry|
                        #[trigger] self.spec_wheel().spec_has(e) && e.port == q by {
                        if q == p {
                            assert(self.spec_wheel().spec_has(TimerEntry { port: p, deadline }));
                        } else {
                            assert(s0.spec_sm().spec_live(q));
                            let e = choose|e: TimerEntry| #[trigger] s0.spec_wheel().spec_has(e) && e.port == q;
                            assert(self.spec_wheel().spec_has(e));
                        }
                    }
                }
                proof {

                    let idx = p - s0.sm.spec_base();
                    assert(self.sm.spec_slots() =~= s0.sm.spec_slots().update(idx, Some(cc)));
                    assert(self.sm.spec_conn(p) == cc);
                    assert(f.tcp.src_port == p);
                    assert(cc == spec_new_connection(f0, p, cc.server.unwrap(), seqn));
                }
                self.count_syn(tsc, msgs);
                GROUP_NIC
            },
        };
        f.ip.decrement_ttl();
        group
    }

    /// Advances the connection on the segment's destination port and
    /// answers, translates, drops or hands the segment to the kernel.
    fn process_server_frame(&mut self, f: &mut Frame, msgs: &mut Vec<MessageFrom>) -> (group: usize)
        requires
            old(self).wf(),
            old(f).wf(),
        ensures
            final(self).wf(),
            final(f).wf(),
            final(self).same_setup(*old(self)),
            final(self).spec_wheel().spec_now_tick() == old(self).spec_wheel().spec_now_tick(),
            server_outcome(*old(self), *final(self), *old(f), *final(f), old(msgs)@, final(msgs)@, group),
            ip_checksum_valid(final(f).ip),
            final(f).ip.ttl == spec_ttl_after(old(f).ip.ttl),
            old(f).tcp_checksum_valid() ==> final(f).tcp_checksum_valid(),
    {
        let ghost f0 = *f;
        let ghost s0 = *self;
        let port = f.tcp.dst_port;
        if self.sm.get(port).is_none() {
            f.ip.decrement_ttl();
            return GROUP_KNI;
        }
        let mut c = self.sm.replace(Connection::new(port));
        let ghost c0 = c;
        let old_s_state = c.con_rec.s_state;
        let old_c_state = c.con_rec.c_state;
        let action = classify_segment(&f.tcp, old_s_state, old_c_state);
        let mut group: usize = GROUP_DROP;
        let mut b_unexpected = false;
        let mut release = false;
        match action {
            SegmentAction::SynAckFirst => {
                c.server_con_established();
                msgs.push(MessageFrom::Established(c.con_rec.duplicate()));
                server_synack_received(f, &mut c, 1);
                group = GROUP_NIC;
            },
            SegmentAction::SynAckRepeat => {
                server_synack_received(f, &mut c, 0);
                group = GROUP_NIC;
            },
            SegmentAction::SynAckIgnored => {},
            SegmentAction::FinReply => {
                c.con_rec.s_state = TcpState::LastAck;
                c.con_rec.c_state = TcpState::Closed;
            },
            SegmentAction::FinServer => {
                c.con_rec.s_state = TcpState::FinWait;
            },
            SegmentAction::RstServer => {
                c.con_rec.s_state = TcpState::Closed;
                c.con_rec.c_state = TcpState::Listen;
                c.con_rec.c_released(ReleaseCause::RstServer);
                release = true;
            },
            SegmentAction::FinalAck => {
                c.con_rec.s_state = TcpState::Closed;
                c.con_rec.c_state = TcpState::Listen;
                c.con_rec.c_released(ReleaseCause::FinServer);
                release = true;
            },
            SegmentAction::Unexpected => {
                b_unexpected = true;
            },
        }
        proof {
            assert(c == spec_conn_after(c0, action));
        }
        if old_s_state.at_least(TcpState::Established) && old_c_state.at_least(TcpState::Established) {
            server_to_client(f, &c, &self.me);
            group = GROUP_NIC;
            b_unexpected = false;
        }
        if b_unexpected {
            group = GROUP_KNI;
        }
        let _ = self.sm.replace(c);
        if release {
            match self.sm.release_port(port) {
                Some(rec) => msgs.push(MessageFrom::CRecord(rec)),
                None => {},
            }
            self.wheel.cancel(port);
        }
        proof {
            assert forall|q: u16| #[trigger] self.spec_sm().spec_live(q) implies exists|e: TimerEntry|
                #[trigger] self.spec_wheel().spec_has(e) && e.port == q by {
                assert(q != port || !release);
                assert(s0.spec_sm().spec_live(q));
                let e = choose|e: TimerEntry| #[trigger] s0.spec_wheel().spec_has(e) && e.port == q;
                assert(self.spec_wheel().spec_has(e));
            }
            let idx = port - s0.sm.spec_base();
            assert(self.sm.spec_slots() =~= s0.sm.spec_slots().update(
                idx,
                if release { None } else { Some(spec_conn_after(c0, action)) },
            ));
        }
        f.ip.decrement_ttl();
        group
    }

    /// Handles one frame that reached the TCP path: an injector frame
    /// (private ethertype) becomes a SYN with initial sequence number `seqn`;
    /// any other frame is a server segment on one of this pipeline's proxy
    /// ports. Returns the frame's group. Each frame leaves with its time to
    /// live decremented and a valid IP header checksum.
    pub fn process_frame_with<S: ServerSelector>(
        &mut self,
        f: &mut Frame,
        selector: &S,
        seqn: u32,
        tsc: u64,
        msgs: &mut Vec<MessageFrom>,
    ) -> (group: usize)
        requires
            old(self).wf(),
            old(f).wf(),
            old(f).mac.etype != PRIVATE_ETYPE_TAG ==> old(self).spec_sm().spec_owns(old(f).tcp.dst_port),
            old(self).spec_time_ok(tsc),
        ensures
            final(self).spec_time_ok(tsc),
            final(self).wf(),
            final(f).wf(),
            final(self).same_setup(*old(self)),
            ip_checksum_valid(final(f).ip),
            final(f).ip.ttl == spec_ttl_after(old(f).ip.ttl),
            old(f).tcp_checksum_valid() ==> final(f).tcp_checksum_valid(),
            old(f).mac.etype == PRIVATE_ETYPE_TAG ==> injected_outcome(
                *old(self),
                *final(self),
                *old(f),
                *final(f),
                old(msgs)@,
                final(msgs)@,
                group,
                seqn,
                tsc,
            ),
            old(f).mac.etype != PRIVATE_ETYPE_TAG ==> server_outcome(
                *old(self),
                *final(self),
                *old(f),
                *final(f),
                old(msgs)@,
                final(msgs)@,
                group,
            ),
    {
        if f.mac.etype == PRIVATE_ETYPE_TAG {
            self.process_injected(f, selector, seqn, tsc, msgs)
        } else {
            self.process_server_frame(f, msgs)
        }
    }

    /// As `process_frame_with`, drawing the initial sequence number of a
    /// new connection at random.
    pub fn process_frame<S: ServerSelector>(
        &mut self,
        f: &mut Frame,
        selector: &S,
        tsc: u64,
        msgs: &mut Vec<MessageFrom>,
    ) -> (group: usize)
        requires
            old(self).wf(),
            old(f).wf(),
            old(f).mac.etype != PRIVATE_ETYPE_TAG ==> old(self).spec_sm().spec_owns(old(f).tcp.dst_port),
            old(self).spec_time_ok(tsc),
        ensures
            final(self).spec_time_ok(tsc),
            final(self).wf(),
            final(f).wf(),
            final(self).same_setup(*old(self)),
            ip_checksum_valid(final(f).ip),
            final(f).ip.ttl == spec_ttl_after(old(f).ip.ttl),
            old(f).tcp_checksum_valid() ==> final(f).tcp_checksum_valid(),
            old(f).mac.etype == PRIVATE_ETYPE_TAG ==> exists|seqn: u32|
                injected_outcome(
                    *old(self),
                    *final(self),
                    *old(f),
                    *final(f),
                    old(msgs)@,
                    final(msgs)@,
                    group,
                    seqn,
                    tsc,
                ),
            old(f).mac.etype != PRIVATE_ETYPE_TAG ==> server_outcome(
                *old(self),
                *final(self),
                *old(f),
                *final(f),
                old(msgs)@,
                final(msgs)@,
                group,
            ),
    {
        let seqn = if f.mac.etype == PRIVATE_ETYPE_TAG {
            random_seqn()
        } else {
            0
        };
        self.process_frame_with(f, selector, seqn, tsc, msgs)
    }

    /// Our side has sent its FIN on the connection on port `p`: the client
    /// half moves to `LastAck`. Returns whether `p` had a connection.
    pub fn client_fin_sent(&mut self, p: u16) -> (r: bool)
        requires
            old(self).wf(),
        ensures
            final(self).spec_wheel().spec_now_tick() == old(self).spec_wheel().spec_now_tick(),
            forall|e: TimerEntry| final(self).spec_wheel().spec_has(e) ==> old(self).spec_wheel().spec_has(e),
            final(self).wf(),
            final(self).same_setup(*old(self)),
            final(self).spec_syn_counter() == old(self).spec_syn_counter(),
            r == old(self).spec_sm().spec_live(p),
            !r ==> final(self).spec_sm().spec_slots() == old(self).spec_sm().spec_slots(),
            r ==> {
                let c = old(self).spec_sm().spec_conn(p);
                final(self).spec_sm().spec_slots() == old(self).spec_sm().spec_slots().update(
                    p - old(self).spec_sm().spec_base(),
                    Some(
                        Connection {
                            con_rec: ConnectionRecord { c_state: TcpState::LastAck, ..c.con_rec },
                            ..c
                        },
                    ),
                )
            },
    {
        if self.sm.get(p).is_none() {
            return false;
        }
        let mut c = self.sm.replace(Connection::new(p));
        c.con_rec.c_state = TcpState::LastAck;
        let _ = self.sm.replace(c);
        proof {
            assert forall|q: u16| #[trigger] self.spec_sm().spec_live(q) implies exists|e: TimerEntry|
                #[trigger] self.spec_wheel().spec_has(e) && e.port == q by {
                assert(old(self).spec_sm().spec_live(q));
                let e = choose|e: TimerEntry| #[trigger] old(self).spec_wheel().spec_has(e) && e.port == q;
                assert(self.spec_wheel().spec_has(e));
            }
        }
        true
    }

    /// The pool and the wheel are well formed; pending timeouts aside.
    pub open spec fn parts_wf(&self) -> bool {
        &&& self.spec_sm().wf()
        &&& self.spec_wheel().wf()
        &&& self.spec_wheel().spec_granularity() == WHEEL_GRANULARITY
    }

    /// Releases the connection on `p` with cause `Timeout` and drops its
    /// timeouts.
    fn release_with_timeout(&mut self, p: u16, msgs: &mut Vec<MessageFrom>) -> (r: bool)
        requires
            old(self).parts_wf(),
        ensures
            final(self).parts_wf(),
            final(self).same_setup(*old(self)),
            final(self).spec_syn_counter() == old(self).spec_syn_counter(),
            final(self).spec_wheel().spec_now_tick() == old(self).spec_wheel().spec_now_tick(),
            r == old(self).spec_sm().spec_live(p),
            !r ==> final(self).spec_sm().spec_slots() == old(self).spec_sm().spec_slots() && final(msgs)@
                == old(msgs)@ && final(self).spec_wheel() == old(self).spec_wheel(),
            r ==> forall|e: TimerEntry|
                final(self).spec_wheel().spec_has(e) <==> old(self).spec_wheel().spec_has(e) && e.port != p,
            r ==> {
                let c = old(self).spec_sm().spec_conn(p);
                &&& final(self).spec_sm().spec_slots() == old(self).spec_sm().spec_slots().update(
                    p - old(self).spec_sm().spec_base(),
                    None,
                )
                &&& final(msgs)@ == old(msgs)@.push(
                    MessageFrom::CRecord(ConnectionRecord { release_cause: ReleaseCause::Timeout, ..c.con_rec }),
                )
            },
    {
        if self.sm.get(p).is_none() {
            return false;
        }
        let mut c = self.sm.replace(Connection::new(p));
        c.con_rec.c_released(ReleaseCause::Timeout);
        let _ = self.sm.replace(c);
        match self.sm.release_port(p) {
            Some(rec) => msgs.push(MessageFrom::CRecord(rec)),
            None => {},
        }
        self.wheel.cancel(p);
        proof {
            assert(final(self).spec_sm().spec_slots() =~= old(self).spec_sm().spec_slots().update(
                p - old(self).spec_sm().spec_base(),
                None,
            ));
        }
        true
    }

    /// Releases the connection on port `p` because its timer expired, and
    /// sends its record. Returns whether `p` had a connection.
    pub fn release_timed_out(&mut self, p: u16, msgs: &mut Vec<MessageFrom>) -> (r: bool)
        requires
            old(self).wf(),
        ensures
            final(self).spec_wheel().spec_now_tick() == old(self).spec_wheel().spec_now_tick(),
            forall|e: TimerEntry| final(self).spec_wheel().spec_has(e) ==> old(self).spec_wheel().spec_has(e),
            final(self).wf(),
            final(self).same_setup(*old(self)),
            final(self).spec_syn_counter() == old(self).spec_syn_counter(),
            r == old(self).spec_sm().spec_live(p),
            !r ==> final(self).spec_sm().spec_slots() == old(self).spec_sm().spec_slots() && final(msgs)@
                == old(msgs)@,
            r ==> {
                let c = old(self).spec_sm().spec_conn(p);
                &&& final(self).spec_sm().spec_slots() == old(self).spec_sm().spec_slots().update(
                    p - old(self).spec_sm().spec_base(),
                    None,
                )
                &&& final(msgs)@ == old(msgs)@.push(
                    MessageFrom::CRecord(ConnectionRecord { release_cause: ReleaseCause::Timeout, ..c.con_rec }),
                )
            },
    {
        let r = self.release_with_timeout(p, msgs);
        proof {
            assert forall|q: u16| #[trigger] self.spec_sm().spec_live(q) implies exists|e: TimerEntry|
                #[trigger] self.spec_wheel().spec_has(e) && e.port == q by {
                assert(old(self).spec_sm().spec_live(q));
                let e = choose|e: TimerEntry| #[trigger] old(self).spec_wheel().spec_has(e) && e.port == q;
                assert(self.spec_wheel().spec_has(e));
            }
        }
        r
    }

    /// Advances the timeouts to `now` and releases, with cause `Timeout`,
    /// each connection whose timeout has come, sending its record.
    pub fn expire(&mut self, now: u64, msgs: &mut Vec<MessageFrom>) -> (due: Vec<TimerEntry>)
        requires
            old(self).wf(),
            old(self).spec_time_ok(now),
        ensures
            forall|e: TimerEntry| due@.contains(e) <==> old(self).spec_wheel().spec_has(e) && e.deadline <= now,
            final(self).spec_sm().spec_slots() == spec_timeout_run(
                old(self).spec_sm().spec_slots(),
                old(self).spec_sm().spec_base(),
                due@,
            ).0,
            final(msgs)@ == old(msgs)@ + spec_timeout_run(
                old(self).spec_sm().spec_slots(),
                old(self).spec_sm().spec_base(),
                due@,
            ).1,
            forall|j: int|
                0 <= j < old(self).spec_sm().spec_pool_size() && (forall|k: int|
                    0 <= k < due@.len() ==> (#[trigger] due@[k]).port - old(self).spec_sm().spec_base() != j)
                    ==> #[trigger] final(self).spec_sm().spec_slots()[j] == old(self).spec_sm().spec_slots()[j],
            final(self).wf(),
            final(self).same_setup(*old(self)),
            final(self).spec_syn_counter() == old(self).spec_syn_counter(),
            final(self).spec_time_ok(now),
            final(self).spec_wheel().spec_now_tick() == now / WHEEL_GRANULARITY,
            forall|e: TimerEntry|
                old(self).spec_wheel().spec_has(e) && e.deadline <= now ==> !final(self).spec_sm().spec_live(
                    e.port,
                ),
            forall|e: TimerEntry| final(self).spec_wheel().spec_has(e) ==> e.deadline > now,
    {
        let expired = self.wheel.advance(now);
        proof {
            assert forall|q: u16| #[trigger] self.spec_sm().spec_live(q) implies (exists|e: TimerEntry|
                #[trigger] self.spec_wheel().spec_has(e) && e.port == q) || (exists|k: int|
                0 <= k < expired@.len() && (#[trigger] expired@[k]).port == q) by {
                let e = choose|e: TimerEntry| #[trigger] old(self).spec_wheel().spec_has(e) && e.port == q;
                if e.deadline <= now {
                    assert(expired@.contains(e));
                    let k = choose|k: int| 0 <= k < expired@.len() && expired@[k] == e;
                    assert(expired@[k].port == q);
                } else {
                    assert(self.spec_wheel().spec_has(e));
                }
            }
        }
        let mut i: usize = 0;
        while i < expired.len()
            invariant
                self.spec_sm().wf(),
                self.spec_wheel().wf(),
                self.spec_wheel().spec_granularity() == WHEEL_GRANULARITY,
                forall|q: u16|
                    #[trigger] self.spec_sm().spec_live(q) ==> (exists|e: TimerEntry|
                        #[trigger] self.spec_wheel().spec_has(e) && e.port == q) || (exists|k: int|
                        i <= k < expired@.len() && (#[trigger] expired@[k]).port == q),
                self.same_setup(*old(self)),
                self.spec_syn_counter() == old(self).spec_syn_counter(),
                self.spec_wheel().spec_now_tick() == now / WHEEL_GRANULARITY,
                i <= expired@.len(),
                forall|k: int| 0 <= k < i ==> !self.spec_sm().spec_live((#[trigger] expired@[k]).port),
                forall|e: TimerEntry| self.spec_wheel().spec_has(e) ==> e.deadline > now,
                self.spec_sm().spec_slots() == spec_timeout_run(
                    old(self).spec_sm().spec_slots(),
                    old(self).spec_sm().spec_base(),
                    expired@.subrange(0, i as int),
                ).0,
                msgs@ == old(msgs)@ + spec_timeout_run(
                    old(self).spec_sm().spec_slots(),
                    old(self).spec_sm().spec_base(),
                    expired@.subrange(0, i as int),
                ).1,
                forall|j: int|
                    0 <= j < old(self).spec_sm().spec_pool_size() && (forall|k: int|
                        0 <= k < i ==> (#[trigger] expired@[k]).port - old(self).spec_sm().spec_base() != j)
                        ==> #[trigger] self.spec_sm().spec_slots()[j] == old(self).spec_sm().spec_slots()[j],
            decreases expired@.len() - i,
        {
            let p = expired[i].port;
            let ghost sm0 = self.spec_sm();
            let ghost w0 = self.spec_wheel();
            let ghost m0 = msgs@;
            let r = self.release_with_timeout(p, msgs);
            proof {
                let slots0 = old(self).spec_sm().spec_slots();
                let base = old(self).spec_sm().spec_base();
                assert(expired@.subrange(0, i + 1).drop_last() =~= expired@.subrange(0, i as int));
                assert(expired@.subrange(0, i + 1).last() == expired@[i as int]);
                let prev = spec_timeout_run(slots0, base, expired@.subrange(0, i as int));
                assert(prev.0 == sm0.spec_slots());
                if r {
                    assert(msgs@ =~= old(msgs)@ + prev.1.push(
                        MessageFrom::CRecord(
                            ConnectionRecord { release_cause: ReleaseCause::Timeout, ..prev.0[p - base].unwrap().con_rec },
                        ),
                    ));
                }
                assert forall|j: int|
                    0 <= j < old(self).spec_sm().spec_pool_size() && (forall|k: int|
                        0 <= k < i + 1 ==> (#[trigger] expired@[k]).port - base != j)
                        implies #[trigger] self.spec_sm().spec_slots()[j] == slots0[j] by {
                    assert(expired@[i as int].port - base != j);
                    assert(forall|k: int| 0 <= k < i ==> (#[trigger] expired@[k]).port - base != j);
                }
                assert forall|q: u16| #[trigger] self.spec_sm().spec_live(q) implies (exists|e: TimerEntry|
                    #[trigger] self.spec_wheel().spec_has(e) && e.port == q) || (exists|k: int|
                    i + 1 <= k < expired@.len() && (#[trigger] expired@[k]).port == q) by {
                    assert(q != p || !r);
                    assert(sm0.spec_live(q));
                    if exists|e: TimerEntry| #[trigger] w0.spec_has(e) && e.port == q {
                        let e = choose|e: TimerEntry| #[trigger] w0.spec_has(e) && e.port == q;
                        assert(self.spec_wheel().spec_has(e));
                    } else {
                        let k = choose|k: int| i <= k < expired@.len() && (#[trigger] expired@[k]).port == q;
                        if k == i {
                            assert(!r);
                            assert(!sm0.spec_live(p));
                        }
                    }
                }
                assert forall|k: int| 0 <= k < i + 1 implies !self.spec_sm().spec_live((#[trigger] expired@[k]).port) by {
                    if expired@[k].port != p {
                        assert(!sm0.spec_live(expired@[k].port));
                    }
                }
            }
            i = i + 1;
        }
        proof {
            assert forall|e: TimerEntry|
                old(self).spec_wheel().spec_has(e) && e.deadline <= now implies !self.spec_sm().spec_live(e.port) by {
                assert(expired@.contains(e));
                let k = choose|k: int| 0 <= k < expired@.len() && expired@[k] == e;
            }
            assert(expired@.subrange(0, expired@.len() as int) =~= expired@);
        }
        expired
    }

    /// Sends the record of every live connection, in port order; the
    /// connections stay.
    pub fn send_all_c_records(&self, msgs: &mut Vec<MessageFrom>)
        requires
            self.wf(),
        ensures
            final(msgs)@ == old(msgs)@ + spec_record_messages(self.spec_sm().spec_slots()),
    {
        let base = self.sm.tcp_port_base();
        let n = self.sm.pool_size();
        let ghost slots = self.spec_sm().spec_slots();
        proof {
            self.spec_sm().lemma_range_fits();
        }
        let mut i: usize = 0;
        while i < n
            invariant
                self.wf(),
                n == slots.len(),
                slots == self.spec_sm().spec_slots(),
                base == self.spec_sm().spec_base(),
                i <= n,
                base + n <= 65536,
                msgs@ == old(msgs)@ + spec_record_messages(slots.subrange(0, i as int)),
            decreases n - i,
        {
            let p: u16 = base + i as u16;
            match self.sm.get(p) {
                Some(c) => msgs.push(MessageFrom::CRecord(c.con_rec.duplicate())),
                None => {},
            }
            proof {
                assert(slots.subrange(0, i + 1).drop_last() =~= slots.subrange(0, i as int));
                assert(slots.subrange(0, i + 1).last() == slots[i as int]);
                assert(p - base == i);
                assert(msgs@ =~= old(msgs)@ + spec_record_messages(slots.subrange(0, i + 1)));
            }
            i = i + 1;
        }
        proof {
            assert(slots.subrange(0, n as int) =~= slots);
        }
    }
}

/// A server segment that releases its connection leaves no connection on
/// its port, and appends exactly one message: the connection's record.
pub proof fn lemma_release_reports_once(
    s0: TcpPipeline,
    s1: TcpPipeline,
    f0: Frame,
    f1: Frame,
    m0: Seq<MessageFrom>,
    m1: Seq<MessageFrom>,
    group: usize,
)
    requires
        s0.wf(),
        s1.same_setup(s0),
        server_outcome(s0, s1, f0, f1, m0, m1, group),
        s0.spec_sm().spec_live(f0.tcp.dst_port),
        spec_release(
            spec_classify(
                f0.tcp,
                s0.spec_sm().spec_conn(f0.tcp.dst_port).con_rec.s_state,
                s0.spec_sm().spec_conn(f0.tcp.dst_port).con_rec.c_state,
            ),
        ) is Some,
    ensures
        !s1.spec_sm().spec_live(f0.tcp.dst_port),
        m1.len() == m0.len() + 1,
        m1.subrange(0, m0.len() as int) == m0,
        m1.last() is CRecord,
        m1.last()->CRecord_0.proxy_port == f0.tcp.dst_port,
{
    s0.spec_sm().lemma_live_conn(f0.tcp.dst_port);
    assert(m1.subrange(0, m0.len() as int) =~= m0);
}

/// A reset from the server releases the connection in the same call that
/// processes it, and reports it with cause `RstServer`.
pub proof fn lemma_rst_releases(
    s0: TcpPipeline,
    s1: TcpPipeline,
    f0: Frame,
    f1: Frame,
    m0: Seq<MessageFrom>,
    m1: Seq<MessageFrom>,
    group: usize,
)
    requires
        s0.wf(),
        s1.same_setup(s0),
        server_outcome(s0, s1, f0, f1, m0, m1, group),
        s0.spec_sm().spec_live(f0.tcp.dst_port),
        f0.tcp.rst,
        !f0.tcp.syn,
        !f0.tcp.fin,
    ensures
        !s1.spec_sm().spec_live(f0.tcp.dst_port),
        m1 == m0.push(
            MessageFrom::CRecord(
                ConnectionRecord {
                    c_state: TcpState::Listen,
                    s_state: TcpState::Closed,
                    release_cause: ReleaseCause::RstServer,
                    ..s0.spec_sm().spec_conn(f0.tcp.dst_port).con_rec
                },
            ),
        ),
        m1.last()->CRecord_0.proxy_port == f0.tcp.dst_port,
        m1.last()->CRecord_0.release_cause == ReleaseCause::RstServer,
        m1.last()->CRecord_0.s_state == TcpState::Closed,
{
    s0.spec_sm().lemma_live_conn(f0.tcp.dst_port);
}

/// A SYN made from an injector frame (SYN its only flag) comes from our
/// address and the connection's proxy port, goes to the selected server, and
/// has SYN as its only flag.
pub proof fn lemma_generated_syn(
    s0: TcpPipeline,
    s1: TcpPipeline,
    f0: Frame,
    f1: Frame,
    m0: Seq<MessageFrom>,
    m1: Seq<MessageFrom>,
    group: usize,
    seqn: u32,
    tsc: u64,
)
    requires
        s0.wf(),
        s1.same_setup(s0),
        injected_outcome(s0, s1, f0, f1, m0, m1, group, seqn, tsc),
        !s0.spec_sm().spec_full(),
        !f0.tcp.fin && !f0.tcp.rst && !f0.tcp.urg && !f0.tcp.ece && !f0.tcp.cwr && !f0.tcp.ns,
    ensures
        ({
            let c = s1.spec_sm().spec_conn(f1.tcp.src_port);
            let server = c.server.unwrap();
            &&& s1.spec_sm().spec_live(f1.tcp.src_port)
            &&& c.proxy_port == f1.tcp.src_port
            &&& f1.mac.src == s0.spec_me().mac
            &&& f1.ip.src == s0.spec_me().ip
            &&& f1.mac.dst == server.mac
            &&& f1.ip.dst == server.ip
            &&& f1.tcp.dst_port == server.port
            &&& f1.tcp.syn && !f1.tcp.ack && !f1.tcp.fin && !f1.tcp.rst && !f1.tcp.psh && !f1.tcp.urg
                && !f1.tcp.ece && !f1.tcp.cwr && !f1.tcp.ns
        }),
{
}

/// Round trip: once a SYN went out on a proxy port, the server's SYN-ACK on
/// that port sends `Established` for the connection and is answered by an
/// ACK that acknowledges the server's sequence number plus one.
pub proof fn lemma_handshake(
    s0: TcpPipeline,
    s1: TcpPipeline,
    s2: TcpPipeline,
    f0: Frame,
    f1: Frame,
    g0: Frame,
    g1: Frame,
    m0: Seq<MessageFrom>,
    m1: Seq<MessageFrom>,
    m2: Seq<MessageFrom>,
    group1: usize,
    group2: usize,
    seqn: u32,
    tsc: u64,
)
    requires
        s0.wf(),
        !s0.spec_sm().spec_full(),
        s1.same_setup(s0),
        injected_outcome(s0, s1, f0, f1, m0, m1, group1, seqn, tsc),
        s2.same_setup(s1),
        server_outcome(s1, s2, g0, g1, m1, m2, group2),
        g0.tcp.dst_port == f1.tcp.src_port,
        g0.tcp.syn,
        g0.tcp.ack,
    ensures
        group2 == GROUP_NIC,
        m2.len() == m1.len() + 1,
        m2.last() is Established,
        m2.last()->Established_0.proxy_port == f1.tcp.src_port,
        m2.last()->Established_0.c_state == TcpState::Established,
        m2.last()->Established_0.s_state == TcpState::Established,
        g1.tcp.ack,
        !g1.tcp.syn,
        g1.tcp.ack_num == u32_specs::wrapping_add(g0.tcp.seq_num, 1),
        g1.tcp.seq_num == u32_specs::wrapping_add(seqn, 1),
        g1.tcp.src_port == g0.tcp.dst_port,
        g1.tcp.dst_port == g0.tcp.src_port,
{
}

/// After `expire(now)`, every live connection still has a timeout pending,
/// later than `now`: no connection outlives its timeout by more than one
/// call of `expire`.
pub proof fn lemma_live_connections_have_pending_timeouts(s: TcpPipeline, now: u64, p: u16)
    requires
        s.wf(),
        forall|e: TimerEntry| s.spec_wheel().spec_has(e) ==> e.deadline > now,
        s.spec_sm().spec_live(p),
    ensures
        exists|e: TimerEntry| #[trigger] s.spec_wheel().spec_has(e) && e.port == p && e.deadline > now,
{
    let e = choose|e: TimerEntry| #[trigger] s.spec_wheel().spec_has(e) && e.port == p;
    assert(s.spec_wheel().spec_has(e) && e.port == p && e.deadline > now);
}

/// Every live connection of a pipeline sits on its own proxy port, inside
/// the pipeline's range, and no two share a port.
pub proof fn lemma_pipeline_ports(s: TcpPipeline, p: u16, q: u16)
    requires
        s.wf(),
        s.spec_sm().spec_live(p),
        s.spec_sm().spec_live(q),
    ensures
        s.spec_sm().spec_base() <= p < s.spec_sm().spec_base() + s.spec_sm().spec_pool_size(),
        s.spec_sm().spec_base() + s.spec_sm().spec_pool_size() <= 65536,
        s.spec_sm().spec_conn(p).proxy_port == p,
        s.spec_sm().spec_conn(p).con_rec.proxy_port == p,
        p != q ==> s.spec_sm().spec_conn(p).proxy_port != s.spec_sm().spec_conn(q).proxy_port,
{
    s.spec_sm().lemma_live_conn(p);
    s.spec_sm().lemma_live_conn(q);
    s.spec_sm().lemma_range_fits();
}

/// Each SYN made counts once; a `GenTimeStamp` carrying the new count goes
/// out exactly when the count reaches a multiple of `TIMESTAMP_EVERY`, and
/// nothing else is sent unless a `PrintPerformance` is due as well.
pub proof fn lemma_syn_count_messages(
    s0: TcpPipeline,
    s1: TcpPipeline,
    f0: Frame,
    f1: Frame,
    m0: Seq<MessageFrom>,
    m1: Seq<MessageFrom>,
    group: usize,
    seqn: u32,
    tsc: u64,
)
    requires
        injected_outcome(s0, s1, f0, f1, m0, m1, group, seqn, tsc),
        !s0.spec_sm().spec_full(),
        s0.spec_syn_counter() < u64::MAX,
    ensures
        s1.spec_syn_counter() == s0.spec_syn_counter() + 1,
        (s0.spec_syn_counter() + 1) % (TIMESTAMP_EVERY as int) != 0 ==> m1 == m0,
        (s0.spec_syn_counter() + 1) % (TIMESTAMP_EVERY as int) == 0 ==> m1.len() > m0.len()
            && m1[m0.len() as int] == MessageFrom::GenTimeStamp(
            s0.spec_pipeline_id(),
            (s0.spec_syn_counter() + 1) as u64,
            tsc,
        ),
        (s0.spec_syn_counter() + 1) % (TIMESTAMP_EVERY as int) == 0 && (s0.spec_syn_counter() + 1) % (
        PERFORMANCE_EVERY as int) != 0 ==> m1.len() == m0.len() + 1,
        (s0.spec_syn_counter() + 1) % (PERFORMANCE_EVERY as int) == 0 ==> m1.len() == m0.len() + 2
            && m1[m0.len() + 1int] is PrintPerformance,
{
}

} // verus!

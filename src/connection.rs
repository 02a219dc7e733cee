//! Per-connection state: endpoints, TCP half-states and the record that is
//! reported to the controller.
use vstd::prelude::*;
use crate::headers::MacAddr;

verus! {

/// TCP half-connection state.
#[derive(Clone, Copy, Debug, PartialEq, Eq, Structural)]
pub enum TcpState {
    Closed,
    Listen,
    SynSent,
    SynReceived,
    Established,
    FinWait,
    LastAck,
}

impl TcpState {
    /// Position in the order used by the `>=` tests of the state machine;
    /// `SynSent` and `SynReceived` rank alike.
    pub open spec fn spec_rank(self) -> nat {
        match self {
            TcpState::Closed => 0,
            TcpState::Listen => 1,
            TcpState::SynSent => 2,
            TcpState::SynReceived => 2,
            TcpState::Established => 3,
            TcpState::FinWait => 4,
            TcpState::LastAck => 5,
        }
    }

    pub fn rank(&self) -> (r: u8)
        ensures
            r as nat == self.spec_rank(),
    {
        match self {
            TcpState::Closed => 0,
            TcpState::Listen => 1,
            TcpState::SynSent => 2,
            TcpState::SynReceived => 2,
            TcpState::Established => 3,
            TcpState::FinWait => 4,
            TcpState::LastAck => 5,
        }
    }

    pub open spec fn spec_at_least(self, o: TcpState) -> bool {
        self.spec_rank() >= o.spec_rank()
    }

    pub fn at_least(&self, o: TcpState) -> (r: bool)
        ensures
            r == self.spec_at_least(o),
    {
        self.rank() >= o.rank()
    }
}

/// Why a connection was released.
#[derive(Clone, Copy, Debug, PartialEq, Eq, Structural)]
pub enum ReleaseCause {
    Unreleased,
    RstServer,
    FinServer,
    Timeout,
    ActiveClose,
}

/// The observable history of one connection, sent to the controller when the
/// connection is established and when it is released.
#[derive(Clone, Debug)]
pub struct ConnectionRecord {
    pub client_ip: u32,
    pub client_port: u16,
    pub proxy_port: u16,
    pub server_id: String,
    pub c_state: TcpState,
    pub s_state: TcpState,
    pub release_cause: ReleaseCause,
}

impl ConnectionRecord {
    pub fn duplicate(&self) -> (r: ConnectionRecord)
        ensures
            r == *self,
    {
        ConnectionRecord {
            client_ip: self.client_ip,
            client_port: self.client_port,
            proxy_port: self.proxy_port,
            server_id: self.server_id.clone(),
            c_state: self.c_state,
            s_state: self.s_state,
            release_cause: self.release_cause,
        }
    }

    /// Marks the record as released for `cause`.
    pub fn c_released(&mut self, cause: ReleaseCause)
        ensures
            *final(self) == (ConnectionRecord { release_cause: cause, ..*old(self) }),
    {
        self.release_cause = cause;
    }
}

/// A layer 2 to 4 endpoint: the engine itself or a backend server.
#[derive(Clone, Debug)]
pub struct L234Address {
    pub mac: MacAddr,
    pub ip: u32,
    pub port: u16,
    pub server_id: String,
}

impl L234Address {
    pub fn duplicate(&self) -> (r: L234Address)
        ensures
            r == *self,
    {
        L234Address { mac: self.mac, ip: self.ip, port: self.port, server_id: self.server_id.clone() }
    }
}

/// The runtime state of one proxied connection.
#[derive(Debug)]
pub struct Connection {
    pub proxy_port: u16,
    pub client_mac: MacAddr,
    pub client_ip: u32,
    pub client_port: u16,
    pub server: Option<L234Address>,
    pub c_seqn: u32,
    pub c2s_inserted_bytes: i32,
    pub con_rec: ConnectionRecord,
}

impl Connection {
    /// A connection on `port` as the manager creates it: client closed,
    /// server listening, nothing selected yet.
    pub open spec fn is_fresh(&self, port: u16) -> bool {
        &&& self.proxy_port == port
        &&& self.client_mac == MacAddr { bits: 0 }
        &&& self.client_ip == 0
        &&& self.client_port == 0
        &&& self.server.is_none()
        &&& self.c_seqn == 0
        &&& self.c2s_inserted_bytes == 0
        &&& self.con_rec.client_ip == 0
        &&& self.con_rec.client_port == 0
        &&& self.con_rec.proxy_port == port
        &&& self.con_rec.server_id@.len() == 0
        &&& self.con_rec.c_state == TcpState::Closed
        &&& self.con_rec.s_state == TcpState::Listen
        &&& self.con_rec.release_cause == ReleaseCause::Unreleased
    }

    pub fn new(port: u16) -> (r: Connection)
        ensures
            r.is_fresh(port),
    {
        Connection {
            proxy_port: port,
            client_mac: MacAddr { bits: 0 },
            client_ip: 0,
            client_port: 0,
            server: None,
            c_seqn: 0,
            c2s_inserted_bytes: 0,
            con_rec: ConnectionRecord {
                client_ip: 0,
                client_port: 0,
                proxy_port: port,
                server_id: String::new(),
                c_state: TcpState::Closed,
                s_state: TcpState::Listen,
                release_cause: ReleaseCause::Unreleased,
            },
        }
    }

    pub fn p_port(&self) -> (r: u16)
        ensures
            r == self.proxy_port,
    {
        self.proxy_port
    }

    /// Both directions have reached `Established`.
    pub fn server_con_established(&mut self)
        ensures
            *final(self) == (Connection {
                con_rec: ConnectionRecord {
                    c_state: TcpState::Established,
                    s_state: TcpState::Established,
                    ..old(self).con_rec
                },
                ..*old(self)
            }),
    {
        self.con_rec.c_state = TcpState::Established;
        self.con_rec.s_state = TcpState::Established;
    }
}

} // verus!

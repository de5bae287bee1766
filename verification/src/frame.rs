//! The protocol frames: a closed set of control-connection messages, each
//! carrying only the fields its message needs. Strings travel on the wire as
//! length-prefixed byte strings, so string-valued fields are byte vectors
//! here; the compression profit fraction is carried in parts per thousand.

use vstd::prelude::*;

verus! {

#[derive(Debug, Clone, Copy, PartialEq, Eq, Structural)]
pub enum TransportProtocol {
    Tcp,
    Udp,
    Http,
}

impl TransportProtocol {
    /// The wire code of this transport kind.
    pub fn code(self) -> (r: u8)
        ensures
            r == self.spec_code(),
    {
        match self {
            Self::Udp => 0,
            Self::Http => 1,
            Self::Tcp => 2,
        }
    }

    pub open spec fn spec_code(self) -> u8 {
        match self {
            Self::Udp => 0,
            Self::Http => 1,
            Self::Tcp => 2,
        }
    }

    /// The transport kind a wire code names; unassigned codes mean TCP.
    pub fn from_code(num: u8) -> (r: Self)
        ensures
            r == Self::spec_from_code(num),
    {
        match num {
            0 => Self::Udp,
            1 => Self::Http,
            _ => Self::Tcp,
        }
    }

    pub open spec fn spec_from_code(num: u8) -> Self {
        if num == 0 {
            Self::Udp
        } else if num == 1 {
            Self::Http
        } else {
            Self::Tcp
        }
    }
}

impl Default for TransportProtocol {
    fn default() -> (r: Self)
        ensures
            r is Tcp,
    {
        Self::Tcp
    }
}

/// A decoded protocol frame.
#[derive(Debug, Clone)]
pub enum NFrame {
    Ping,
    Sync,
    Server { protocol: TransportProtocol, port: u16 },
    Authorize { magic: Vec<u8> },
    Connect { id: u16 },
    Forward { id: u16, buffer: Vec<u8> },
    Disconnect { id: u16 },
    Error { code: u8 },
    PingResponse { name: Vec<u8> },
    ServerResponse { host: Vec<u8>, port: u16 },
    SyncResponse { threshold: u16, level: u16, profit: u16 },
    RightsUpdate { rights: u8 },
}

/// The mathematical value of a frame: byte-vector fields become sequences.
pub enum FrameModel {
    Ping,
    Sync,
    Server { protocol: TransportProtocol, port: u16 },
    Authorize { magic: Seq<u8> },
    Connect { id: u16 },
    Forward { id: u16, buffer: Seq<u8> },
    Disconnect { id: u16 },
    Error { code: u8 },
    PingResponse { name: Seq<u8> },
    ServerResponse { host: Seq<u8>, port: u16 },
    SyncResponse { threshold: u16, level: u16, profit: u16 },
    RightsUpdate { rights: u8 },
}

impl View for NFrame {
    type V = FrameModel;

    open spec fn view(&self) -> FrameModel {
        match self {
            NFrame::Ping => FrameModel::Ping,
            NFrame::Sync => FrameModel::Sync,
            NFrame::Server { protocol, port } => FrameModel::Server {
                protocol: *protocol,
                port: *port,
            },
            NFrame::Authorize { magic } => FrameModel::Authorize { magic: magic@ },
            NFrame::Connect { id } => FrameModel::Connect { id: *id },
            NFrame::Forward { id, buffer } => FrameModel::Forward { id: *id, buffer: buffer@ },
            NFrame::Disconnect { id } => FrameModel::Disconnect { id: *id },
            NFrame::Error { code } => FrameModel::Error { code: *code },
            NFrame::PingResponse { name } => FrameModel::PingResponse { name: name@ },
            NFrame::ServerResponse { host, port } => FrameModel::ServerResponse {
                host: host@,
                port: *port,
            },
            NFrame::SyncResponse { threshold, level, profit } => FrameModel::SyncResponse {
                threshold: *threshold,
                level: *level,
                profit: *profit,
            },
            NFrame::RightsUpdate { rights } => FrameModel::RightsUpdate { rights: *rights },
        }
    }
}

/// Byte-vector equality, decided element by element.
pub fn bytes_eq(a: &Vec<u8>, b: &Vec<u8>) -> (r: bool)
    ensures
        r == (a@ == b@),
{
    if a.len() != b.len() {
        assert(a@ != b@) by {
            assert(a@.len() != b@.len());
        }
        return false;
    }
    let mut i: usize = 0;
    while i < a.len()
        invariant
            0 <= i <= a.len(),
            a@.len() == b@.len(),
            forall|j: int| 0 <= j < i ==> a@[j] == b@[j],
        decreases a.len() - i,
    {
        if a[i] != b[i] {
            return false;
        }
        i += 1;
    }
    proof {
        assert(a@ =~= b@);
    }
    true
}

impl NFrame {
    /// Frame equality, decided field by field.
    pub fn frame_eq(&self, other: &NFrame) -> (r: bool)
        ensures
            r == (self@ == other@),
    {
        match (self, other) {
            (NFrame::Ping, NFrame::Ping) => true,
            (NFrame::Sync, NFrame::Sync) => true,
            (
                NFrame::Server { protocol: p1, port: q1 },
                NFrame::Server { protocol: p2, port: q2 },
            ) => p1 == p2 && q1 == q2,
            (NFrame::Authorize { magic: m1 }, NFrame::Authorize { magic: m2 }) => bytes_eq(
                m1,
                m2,
            ),
            (NFrame::Connect { id: i1 }, NFrame::Connect { id: i2 }) => i1 == i2,
            (
                NFrame::Forward { id: i1, buffer: b1 },
                NFrame::Forward { id: i2, buffer: b2 },
            ) => i1 == i2 && bytes_eq(b1, b2),
            (NFrame::Disconnect { id: i1 }, NFrame::Disconnect { id: i2 }) => i1 == i2,
            (NFrame::Error { code: c1 }, NFrame::Error { code: c2 }) => c1 == c2,
            (NFrame::PingResponse { name: n1 }, NFrame::PingResponse { name: n2 }) => bytes_eq(
                n1,
                n2,
            ),
            (
                NFrame::ServerResponse { host: h1, port: q1 },
                NFrame::ServerResponse { host: h2, port: q2 },
            ) => bytes_eq(h1, h2) && q1 == q2,
            (
                NFrame::SyncResponse { threshold: t1, level: l1, profit: f1 },
                NFrame::SyncResponse { threshold: t2, level: l2, profit: f2 },
            ) => t1 == t2 && l1 == l2 && f1 == f2,
            (
                NFrame::RightsUpdate { rights: r1 },
                NFrame::RightsUpdate { rights: r2 },
            ) => r1 == r2,
            _ => false,
        }
    }
}

impl PartialEq for NFrame {
    fn eq(&self, other: &NFrame) -> (r: bool) {
        self.frame_eq(other)
    }
}

impl vstd::std_specs::cmp::PartialEqSpecImpl for NFrame {
    open spec fn obeys_eq_spec() -> bool {
        true
    }

    open spec fn eq_spec(&self, other: &NFrame) -> bool {
        self@ == other@
    }
}

} // verus!

//! The control-connection state machine. It decides; it does no I/O. Each
//! handler consumes one event — a frame from the peer, or a report from a
//! downstream task — updates the session, and returns the actions the
//! surrounding runtime must perform: frames to write to the control socket,
//! and downstream connections to open. Fatal conditions (an access-denied
//! error, a rights grant without the create-server capability) close the
//! session and come back as errors.

use vstd::prelude::*;

use crate::compress::ZStdParams;
use crate::frame::{FrameModel, NFrame, TransportProtocol};
use crate::rights::CAN_CREATE_TCP;
use crate::table::{MasterFrame, MasterFrameModel, ProxyClients, SendErrorKind, SlaveFrame};
use crate::wire::ACCESS_DENIED;

verus! {

/// Where the handshake stands.
#[derive(Debug, Clone, Copy, PartialEq, Eq, Structural)]
pub enum SessionState {
    Connecting,
    AwaitingPong,
    AwaitingAuthorization,
    AwaitingRights,
    Active,
    Closed,
}

/// What the runtime must do after an event: write a frame to the control
/// socket, open one downstream connection and register its channel, or
/// deliver forwarded bytes to a downstream task through the session.
#[derive(Debug)]
pub enum Action {
    Send(NFrame),
    OpenDownstream { id: u16 },
    Deliver { id: u16, buffer: Vec<u8> },
}

/// The mathematical value of an action.
pub enum ActionModel {
    Send(FrameModel),
    OpenDownstream { id: u16 },
    Deliver { id: u16, buffer: Seq<u8> },
}

impl View for Action {
    type V = ActionModel;

    open spec fn view(&self) -> ActionModel {
        match self {
            Action::Send(f) => ActionModel::Send(f@),
            Action::OpenDownstream { id } => ActionModel::OpenDownstream { id: *id },
            Action::Deliver { id, buffer } => ActionModel::Deliver { id: *id, buffer: buffer@ },
        }
    }
}

/// The value of an optional byte-vector field.
pub open spec fn opt_bytes_view(m: &Option<Vec<u8>>) -> Option<Seq<u8>> {
    match m {
        Some(v) => Some(v@),
        None => None,
    }
}

/// A condition on which the session cannot make progress.
#[derive(Debug, Clone, Copy, PartialEq, Eq, Structural)]
pub enum SessionError {
    AccessDenied,
    NoRights,
}

/// The mathematical value of a session: its plain fields, and the set of
/// registered downstream connection ids.
#[verifier::ext_equal]
pub struct SessionModel {
    pub state: SessionState,
    pub magic: Option<Seq<u8>>,
    pub port: u16,
    pub use_overrides: bool,
    pub params: ZStdParams,
    pub rights: u8,
    pub m_sent: bool,
    pub host: Seq<u8>,
    pub bound_port: u16,
    pub client_ids: Set<u16>,
}

/// One step of the machine: the session afterwards, the actions owed, and
/// the fatal condition if the step closes the session.
#[verifier::ext_equal]
pub struct StepResult {
    pub next: SessionModel,
    pub actions: Seq<ActionModel>,
    pub fatal: Option<SessionError>,
}

/// A step that only changes the session.
pub open spec fn quiet_step(next: SessionModel) -> StepResult {
    StepResult { next, actions: Seq::empty(), fatal: None }
}

/// What connecting does: send one ping and await the pong.
pub open spec fn spec_start(m: SessionModel) -> StepResult {
    StepResult {
        next: SessionModel { state: SessionState::AwaitingPong, ..m },
        actions: seq![ActionModel::Send(FrameModel::Ping)],
        fatal: None,
    }
}

/// Whether a rights mask allows creating the TCP server this client needs.
pub open spec fn rights_allow_create(rights: u8) -> bool {
    (rights & CAN_CREATE_TCP) == CAN_CREATE_TCP
}

/// The server request this session sends, exactly once.
pub open spec fn server_request(m: SessionModel) -> FrameModel {
    FrameModel::Server { protocol: TransportProtocol::Tcp, port: m.port }
}

/// What one frame from the peer does to the session.
///
/// The handshake: a pong answers the opening ping; a configured token is
/// then presented; a rights grant without the create-server capability is
/// fatal, and one with it triggers the compression-sync request (unless
/// local overrides are kept) and the single server request; a sync response
/// adopts the server's compression settings (unless overridden) and also
/// triggers the server request if it is still owed. While active, a connect
/// frame asks the runtime to open one downstream connection, a forward
/// frame becomes a delivery to that connection's task, and a disconnect
/// signals the task and drops its table entry; an access-denied error is
/// fatal; everything unexpected is ignored.
pub open spec fn spec_handle_network(m: SessionModel, f: FrameModel) -> StepResult {
    match f {
        FrameModel::PingResponse { name } => {
            if m.state is AwaitingPong {
                match m.magic {
                    Some(token) => StepResult {
                        next: SessionModel { state: SessionState::AwaitingAuthorization, ..m },
                        actions: seq![
                            ActionModel::Send(FrameModel::Authorize { magic: token }),
                        ],
                        fatal: None,
                    },
                    None => quiet_step(
                        SessionModel { state: SessionState::AwaitingRights, ..m },
                    ),
                }
            } else {
                quiet_step(m)
            }
        },
        FrameModel::RightsUpdate { rights } => {
            if m.state is AwaitingAuthorization || m.state is AwaitingRights
                || m.state is Active {
                if !rights_allow_create(rights) {
                    StepResult {
                        next: SessionModel { state: SessionState::Closed, ..m },
                        actions: Seq::empty(),
                        fatal: Some(SessionError::NoRights),
                    }
                } else {
                    let next = SessionModel {
                        state: SessionState::Active,
                        rights,
                        m_sent: true,
                        ..m
                    };
                    if m.m_sent {
                        quiet_step(next)
                    } else if m.use_overrides {
                        StepResult {
                            next,
                            actions: seq![ActionModel::Send(server_request(m))],
                            fatal: None,
                        }
                    } else {
                        StepResult {
                            next,
                            actions: seq![
                                ActionModel::Send(FrameModel::Sync),
                                ActionModel::Send(server_request(m)),
                            ],
                            fatal: None,
                        }
                    }
                }
            } else {
                quiet_step(m)
            }
        },
        FrameModel::SyncResponse { threshold, level, profit } => {
            if m.state is AwaitingRights || m.state is Active {
                let adopted = if m.use_overrides {
                    m.params
                } else {
                    ZStdParams { threshold: threshold as usize, level: level as i32, profit }
                };
                let next = SessionModel { params: adopted, m_sent: true, ..m };
                if m.m_sent {
                    quiet_step(next)
                } else {
                    StepResult {
                        next,
                        actions: seq![ActionModel::Send(server_request(m))],
                        fatal: None,
                    }
                }
            } else {
                quiet_step(m)
            }
        },
        FrameModel::ServerResponse { host, port } => {
            if m.state is Active {
                quiet_step(SessionModel { host, bound_port: port, ..m })
            } else {
                quiet_step(m)
            }
        },
        FrameModel::Connect { id } => {
            if m.state is Active {
                StepResult {
                    next: m,
                    actions: seq![ActionModel::OpenDownstream { id }],
                    fatal: None,
                }
            } else {
                quiet_step(m)
            }
        },
        FrameModel::Forward { id, buffer } => {
            if m.state is Active {
                StepResult {
                    next: m,
                    actions: seq![ActionModel::Deliver { id, buffer }],
                    fatal: None,
                }
            } else {
                quiet_step(m)
            }
        },
        FrameModel::Disconnect { id } => {
            if m.state is Active {
                quiet_step(SessionModel { client_ids: m.client_ids.remove(id), ..m })
            } else {
                quiet_step(m)
            }
        },
        FrameModel::Error { code } => {
            if code == ACCESS_DENIED {
                StepResult {
                    next: SessionModel { state: SessionState::Closed, ..m },
                    actions: Seq::empty(),
                    fatal: Some(SessionError::AccessDenied),
                }
            } else {
                quiet_step(m)
            }
        },
        _ => quiet_step(m),
    }
}

/// What one report from a downstream task does: forwarded bytes become a
/// forward frame for the peer; a closed downstream drops its table entry
/// and tells the peer, in that order, exactly once.
pub open spec fn spec_handle_slave(m: SessionModel, f: MasterFrameModel) -> StepResult {
    match f {
        MasterFrameModel::Forward { id, buffer } => StepResult {
            next: m,
            actions: seq![ActionModel::Send(FrameModel::Forward { id, buffer })],
            fatal: None,
        },
        MasterFrameModel::Disconnected { id } => StepResult {
            next: SessionModel { client_ids: m.client_ids.remove(id), ..m },
            actions: seq![ActionModel::Send(FrameModel::Disconnect { id })],
            fatal: None,
        },
    }
}

/// One client session: handshake progress, negotiated settings, and the
/// table of downstream connections.
pub struct ControlSession {
    pub state: SessionState,
    pub magic: Option<Vec<u8>>,
    pub port: u16,
    pub use_overrides: bool,
    pub params: ZStdParams,
    pub rights: u8,
    pub m_sent: bool,
    pub host: Vec<u8>,
    pub bound_port: u16,
    pub clients: ProxyClients,
}

impl View for ControlSession {
    type V = SessionModel;

    open spec fn view(&self) -> SessionModel {
        SessionModel {
            state: self.state,
            magic: opt_bytes_view(&self.magic),
            port: self.port,
            use_overrides: self.use_overrides,
            params: self.params,
            rights: self.rights,
            m_sent: self.m_sent,
            host: self.host@,
            bound_port: self.bound_port,
            client_ids: self.clients.ids(),
        }
    }
}

impl ControlSession {
    pub open spec fn wf(self) -> bool {
        self.clients.wf()
    }

    /// A fresh session for one control connection. `use_overrides` keeps
    /// the local compression settings even when the server offers its own.
    pub fn new(magic: Option<Vec<u8>>, params: ZStdParams, port: u16, use_overrides: bool) -> (r:
        Self)
        ensures
            r.wf(),
            r@.state is Connecting,
            r@.magic == opt_bytes_view(&magic),
            r@.port == port,
            r@.use_overrides == use_overrides,
            r@.params == params,
            r@.m_sent == false,
            r@.client_ids == Set::<u16>::empty(),
    {
        Self {
            state: SessionState::Connecting,
            magic,
            port,
            use_overrides,
            params,
            rights: 0,
            m_sent: false,
            host: Vec::new(),
            bound_port: 0,
            clients: ProxyClients::new(),
        }
    }

    /// Opens the handshake: sends the ping and awaits the pong.
    pub fn start(&mut self) -> (r: Vec<Action>)
        requires
            old(self).wf(),
        ensures
            final(self).wf(),
            final(self)@ =~= spec_start(old(self)@).next,
            r@.map_values(|a: Action| a@) == spec_start(old(self)@).actions,
    {
        self.state = SessionState::AwaitingPong;
        let mut actions: Vec<Action> = Vec::new();
        actions.push(Action::Send(NFrame::Ping));
        proof {
            assert(actions@.map_values(|a: Action| a@) =~= spec_start(old(self)@).actions);
        }
        actions
    }

    /// Latches the single server request: true the first time, never again.
    pub fn make_sent(&mut self) -> (r: bool)
        ensures
            final(self).m_sent,
            r == !old(self).m_sent,
            final(self)@ =~= (SessionModel { m_sent: true, ..old(self)@ }),
    {
        if self.m_sent {
            false
        } else {
            self.m_sent = true;
            true
        }
    }

    /// Handles one frame from the peer, as `spec_handle_network` says: the
    /// session steps to the spec's next state and hands back exactly the
    /// actions the spec owes, or the fatal condition that closed it.
    pub fn handle_network(&mut self, frame: NFrame) -> (r: Result<Vec<Action>, SessionError>)
        requires
            old(self).wf(),
        ensures
            final(self).wf(),
            final(self)@ =~= spec_handle_network(old(self)@, frame@).next,
            match r {
                Ok(actions) => spec_handle_network(old(self)@, frame@).fatal is None && actions@
                    .map_values(|a: Action| a@) == spec_handle_network(old(self)@, frame@).actions,
                Err(e) => spec_handle_network(old(self)@, frame@).fatal == Some(e),
            },
    {
        let ghost m = self@;
        let ghost fm = frame@;
        let mut actions: Vec<Action> = Vec::new();
        match frame {
            NFrame::PingResponse { name } => {
                if self.state == SessionState::AwaitingPong {
                    match &self.magic {
                        Some(token) => {
                            let t = token.clone();
                            proof {
                                assert(t@ == m.magic.unwrap());
                            }
                            self.state = SessionState::AwaitingAuthorization;
                            actions.push(Action::Send(NFrame::Authorize { magic: t }));
                        },
                        None => {
                            self.state = SessionState::AwaitingRights;
                        },
                    }
                }
            },
            NFrame::RightsUpdate { rights } => {
                if self.state == SessionState::AwaitingAuthorization || self.state
                    == SessionState::AwaitingRights || self.state == SessionState::Active {
                    if (rights & CAN_CREATE_TCP) != CAN_CREATE_TCP {
                        self.state = SessionState::Closed;
                        proof {
                            assert(final(self)@ =~= spec_handle_network(m, fm).next);
                        }
                        return Err(SessionError::NoRights);
                    }
                    let was_sent = self.m_sent;
                    self.rights = rights;
                    self.m_sent = true;
                    self.state = SessionState::Active;
                    if !was_sent {
                        if !self.use_overrides {
                            actions.push(Action::Send(NFrame::Sync));
                        }
                        actions.push(
                            Action::Send(
                                NFrame::Server {
                                    protocol: TransportProtocol::Tcp,
                                    port: self.port,
                                },
                            ),
                        );
                    }
                }
            },
            NFrame::SyncResponse { threshold, level, profit } => {
                if self.state == SessionState::AwaitingRights || self.state
                    == SessionState::Active {
                    if !self.use_overrides {
                        self.params = ZStdParams {
                            threshold: threshold as usize,
                            level: level as i32,
                            profit,
                        };
                    }
                    let was_sent = self.m_sent;
                    self.m_sent = true;
                    if !was_sent {
                        actions.push(
                            Action::Send(
                                NFrame::Server {
                                    protocol: TransportProtocol::Tcp,
                                    port: self.port,
                                },
                            ),
                        );
                    }
                }
            },
            NFrame::ServerResponse { host, port } => {
                if self.state == SessionState::Active {
                    self.host = host;
                    self.bound_port = port;
                }
            },
            NFrame::Connect { id } => {
                if self.state == SessionState::Active {
                    actions.push(Action::OpenDownstream { id });
                }
            },
            NFrame::Forward { id, buffer } => {
                if self.state == SessionState::Active {
                    actions.push(Action::Deliver { id, buffer });
                }
            },
            NFrame::Disconnect { id } => {
                if self.state == SessionState::Active {
                    self.clients.disconnect(id);
                }
            },
            NFrame::Error { code } => {
                if code == ACCESS_DENIED {
                    self.state = SessionState::Closed;
                    proof {
                        assert(final(self)@ =~= spec_handle_network(m, fm).next);
                    }
                    return Err(SessionError::AccessDenied);
                }
            },
            _ => {},
        }
        proof {
            assert(final(self)@ =~= spec_handle_network(m, fm).next);
            assert(actions@.map_values(|a: Action| a@) =~= spec_handle_network(m, fm).actions);
        }
        Ok(actions)
    }

    /// Handles one report from a downstream task, as `spec_handle_slave`
    /// says.
    pub fn handle_slave(&mut self, frame: MasterFrame) -> (r: Vec<Action>)
        requires
            old(self).wf(),
        ensures
            final(self).wf(),
            final(self)@ =~= spec_handle_slave(old(self)@, frame@).next,
            r@.map_values(|a: Action| a@) == spec_handle_slave(old(self)@, frame@).actions,
    {
        let ghost m = self@;
        let ghost fm = frame@;
        let mut actions: Vec<Action> = Vec::new();
        match frame {
            MasterFrame::Forward { id, buffer } => {
                actions.push(Action::Send(NFrame::Forward { id, buffer }));
            },
            MasterFrame::Disconnected { id } => {
                self.clients.remove_client(id);
                actions.push(Action::Send(NFrame::Disconnect { id }));
            },
        }
        proof {
            assert(final(self)@ =~= spec_handle_slave(m, fm).next);
            assert(actions@.map_values(|a: Action| a@) =~= spec_handle_slave(m, fm).actions);
        }
        actions
    }

    /// Hands forwarded payload bytes to the task of downstream connection
    /// `id`, saying so when no such connection is registered (a protocol
    /// error from the peer, which the caller logs and ignores) or when the
    /// task is gone.
    pub fn deliver(&self, id: u16, buffer: Vec<u8>) -> (r: SendErrorKind)
        ensures
            (r is NoSuchClient) <==> !self@.client_ids.contains(id),
    {
        self.clients.forward(id, buffer)
    }

    /// Registers the channel of a newly opened downstream connection.
    pub fn register_downstream(
        &mut self,
        id: u16,
        sink: tokio::sync::mpsc::UnboundedSender<SlaveFrame>,
    )
        requires
            old(self).wf(),
        ensures
            final(self).wf(),
            final(self)@ =~= (SessionModel {
                client_ids: old(self)@.client_ids.insert(id),
                ..old(self)@
            }),
    {
        self.clients.connected(id, sink);
    }
}

} // verus!

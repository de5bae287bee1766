//! The multiplexer's connection table: one outbound channel per live
//! downstream connection, keyed by connection id. The session's consumer
//! task owns the table alone; downstream tasks see only their own channel.
//! At most one entry is ever registered per id.

use vstd::prelude::*;

verus! {

/// What a downstream task reports back to the session.
#[derive(Debug)]
pub enum MasterFrame {
    Forward { id: u16, buffer: Vec<u8> },
    Disconnected { id: u16 },
}

/// The mathematical value of a downstream report.
pub enum MasterFrameModel {
    Forward { id: u16, buffer: Seq<u8> },
    Disconnected { id: u16 },
}

impl View for MasterFrame {
    type V = MasterFrameModel;

    open spec fn view(&self) -> MasterFrameModel {
        match self {
            MasterFrame::Forward { id, buffer } => MasterFrameModel::Forward {
                id: *id,
                buffer: buffer@,
            },
            MasterFrame::Disconnected { id } => MasterFrameModel::Disconnected { id: *id },
        }
    }
}

/// What the session sends to one downstream task.
#[derive(Debug)]
pub enum SlaveFrame {
    Forward { buffer: Vec<u8> },
    ForceDisconnect,
}

/// How an attempt to reach a downstream task ended.
#[derive(Debug, Clone, Copy, PartialEq, Eq, Structural)]
pub enum SendErrorKind {
    Closed,
    NoSuchClient,
    NoError,
}

#[verifier::external_type_specification]
#[verifier::external_body]
#[verifier::reject_recursive_types(T)]
pub struct ExUnboundedSender<T>(tokio::sync::mpsc::UnboundedSender<T>);

/// Relies on tokio::sync::mpsc::UnboundedSender::send: queues the message
/// for the receiving task without waiting; it fails exactly when the
/// receiver has been dropped, which the session cannot know in advance, so
/// nothing is promised of the outcome.
#[verifier::external_body]
pub(crate) fn send_slave(
    tx: &tokio::sync::mpsc::UnboundedSender<SlaveFrame>,
    frame: SlaveFrame,
) -> (r: bool) {
    tx.send(frame).is_ok()
}

/// The table of live downstream connections.
pub struct ProxyClients {
    pub clients: Vec<(u16, tokio::sync::mpsc::UnboundedSender<SlaveFrame>)>,
}

impl ProxyClients {
    /// No id has two entries.
    pub open spec fn wf(self) -> bool {
        forall|i: int, j: int|
            0 <= i < j < self.clients@.len() ==> self.clients@[i].0 != self.clients@[j].0
    }

    /// Whether `id` has a live entry.
    pub open spec fn spec_has(self, id: u16) -> bool {
        exists|i: int| 0 <= i < self.clients@.len() && self.clients@[i].0 == id
    }

    /// The set of ids with a live entry.
    pub open spec fn ids(self) -> Set<u16> {
        Set::new(|x: u16| self.spec_has(x))
    }

    pub fn new() -> (r: Self)
        ensures
            r.wf(),
            r.ids() == Set::<u16>::empty(),
    {
        let r = Self { clients: Vec::new() };
        proof {
            assert(r.ids() =~= Set::<u16>::empty());
        }
        r
    }

    /// Registers `sink` as the channel of connection `id`, replacing any
    /// earlier entry for the same id.
    pub fn connected(&mut self, id: u16, sink: tokio::sync::mpsc::UnboundedSender<SlaveFrame>)
        requires
            old(self).wf(),
        ensures
            final(self).wf(),
            final(self).ids() == old(self).ids().insert(id),
    {
        let n = self.clients.len();
        let mut i: usize = 0;
        while i < n
            invariant
                0 <= i <= n,
                n == self.clients@.len(),
                self.wf(),
                self == old(self),
                forall|j: int| 0 <= j < i ==> self.clients@[j].0 != id,
            decreases n - i,
        {
            if self.clients[i].0 == id {
                self.clients.set(i, (id, sink));
                proof {
                    assert(old(self).spec_has(id));
                    assert forall|x: u16| self.spec_has(x) <==> old(self).spec_has(x) by {
                        if self.spec_has(x) {
                            let q = choose|q: int|
                                0 <= q < self.clients@.len() && self.clients@[q].0 == x;
                            assert(old(self).clients@[q].0 == x);
                        }
                        if old(self).spec_has(x) {
                            let q = choose|q: int|
                                0 <= q < old(self).clients@.len() && old(self).clients@[q].0 == x;
                            assert(self.clients@[q].0 == x);
                        }
                    }
                    assert(self.ids() =~= old(self).ids().insert(id));
                }
                return ;
            }
            i += 1;
        }
        self.clients.push((id, sink));
        proof {
            assert(self.clients@.last().0 == id);
            assert(self.spec_has(id));
            assert forall|x: u16| x != id implies (self.spec_has(x) <==> old(self).spec_has(
                x,
            )) by {
                if self.spec_has(x) {
                    let q = choose|q: int| 0 <= q < self.clients@.len() && self.clients@[q].0 == x;
                    assert(q < old(self).clients@.len());
                    assert(old(self).clients@[q].0 == x);
                }
                if old(self).spec_has(x) {
                    let q = choose|q: int|
                        0 <= q < old(self).clients@.len() && old(self).clients@[q].0 == x;
                    assert(self.clients@[q].0 == x);
                }
            }
            assert(self.ids() =~= old(self).ids().insert(id));
        }
    }

    /// Hands `frame` to the task of connection `id`; says so when no such
    /// connection is registered, or when its task is gone.
    pub fn send(&self, id: u16, frame: SlaveFrame) -> (r: SendErrorKind)
        ensures
            (r is NoSuchClient) <==> !self.spec_has(id),
    {
        let n = self.clients.len();
        let mut i: usize = 0;
        while i < n
            invariant
                0 <= i <= n,
                n == self.clients@.len(),
                forall|j: int| 0 <= j < i ==> self.clients@[j].0 != id,
            decreases n - i,
        {
            let entry = &self.clients[i];
            if entry.0 == id {
                let ok = send_slave(&entry.1, frame);
                return if ok {
                    SendErrorKind::NoError
                } else {
                    SendErrorKind::Closed
                };
            }
            i += 1;
        }
        SendErrorKind::NoSuchClient
    }

    /// Forwards payload bytes to the task of connection `id`.
    pub fn forward(&self, id: u16, buffer: Vec<u8>) -> (r: SendErrorKind)
        ensures
            (r is NoSuchClient) <==> !self.spec_has(id),
    {
        self.send(id, SlaveFrame::Forward { buffer })
    }

    /// Tells the task of connection `id` to close its socket and exit, and
    /// drops its entry: a peer-initiated disconnect both signals the task
    /// and removes the id from the table.
    pub fn disconnect(&mut self, id: u16) -> (r: SendErrorKind)
        requires
            old(self).wf(),
        ensures
            final(self).wf(),
            final(self).ids() == old(self).ids().remove(id),
            (r is NoSuchClient) <==> !old(self).spec_has(id),
    {
        let r = self.send(id, SlaveFrame::ForceDisconnect);
        self.remove_client(id);
        r
    }

    /// Drops the entry of connection `id`, if any.
    pub fn remove_client(&mut self, id: u16)
        requires
            old(self).wf(),
        ensures
            final(self).wf(),
            final(self).ids() == old(self).ids().remove(id),
    {
        let n = self.clients.len();
        let mut i: usize = 0;
        while i < n
            invariant
                0 <= i <= n,
                n == self.clients@.len(),
                self.wf(),
                self == old(self),
                forall|j: int| 0 <= j < i ==> self.clients@[j].0 != id,
            decreases n - i,
        {
            if self.clients[i].0 == id {
                self.clients.remove(i);
                proof {
                    assert forall|x: u16| x != id implies (self.spec_has(x) <==> old(
                        self,
                    ).spec_has(x)) by {
                        if self.spec_has(x) {
                            let q = choose|q: int|
                                0 <= q < self.clients@.len() && self.clients@[q].0 == x;
                            if q < i {
                                assert(old(self).clients@[q].0 == x);
                            } else {
                                assert(old(self).clients@[q + 1].0 == x);
                            }
                        }
                        if old(self).spec_has(x) {
                            let q = choose|q: int|
                                0 <= q < old(self).clients@.len() && old(self).clients@[q].0 == x;
                            if q < i {
                                assert(self.clients@[q].0 == x);
                            } else {
                                assert(q != i);
                                assert(self.clients@[q - 1].0 == x);
                            }
                        }
                    }
                    assert(!self.spec_has(id)) by {
                        if self.spec_has(id) {
                            let q = choose|q: int|
                                0 <= q < self.clients@.len() && self.clients@[q].0 == id;
                            if q < i {
                                assert(old(self).clients@[q].0 == id);
                            } else {
                                assert(old(self).clients@[q + 1].0 == id);
                            }
                        }
                    }
                    assert(self.ids() =~= old(self).ids().remove(id));
                }
                return ;
            }
            i += 1;
        }
        proof {
            assert(!self.spec_has(id));
            assert(self.ids() =~= old(self).ids().remove(id));
        }
    }
}

} // verus!

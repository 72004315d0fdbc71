//! Websocket connection bookkeeping, apart from the sockets themselves: the
//! server's table of connected clients with their never-reused ids, the
//! queues of messages between the network side and the game, and the
//! decision taken on each outcome of a socket read or write. One failing
//! connection is dropped on its own; the others go on.

use vstd::prelude::*;
use std::collections::VecDeque;

verus! {

/// Identifies a connected client for the lifetime of the server.
pub type ClientId = usize;

/// Readiness key of the listening socket; client ids come after it.
pub const ACCEPT_KEY: ClientId = 1;

/// A websocket application message.
#[derive(Clone, Debug)]
pub enum Message {
    Binary(Vec<u8>),
    Text(String),
}

/// What one read from a websocket gave.
pub enum ReadOutcome {
    /// An application message.
    Received(Message),
    /// A ping control frame, with its payload.
    Ping(Vec<u8>),
    /// Another control frame, which the application never sees.
    Unhandled,
    /// No data right now; not an error.
    WouldBlock,
    /// An I/O or protocol error.
    Failed,
}

/// What one write to a websocket gave.
#[derive(Clone, Copy, Debug, PartialEq, Eq, Structural)]
pub enum WriteOutcome {
    Sent,
    WouldBlock,
    Failed,
}

/// What the caller does after a read.
pub enum ReadAction {
    /// The message was queued for the application.
    Delivered,
    /// Answer with a pong carrying this payload.
    ReplyPong(Vec<u8>),
    /// Nothing to do.
    Nothing,
    /// The connection failed and was dropped: close its socket.
    Disconnect,
}

/// Queued messages, each with the client it comes from or goes to.
pub type Queue = Seq<(ClientId, Message)>;

/// `q` without the entries of client `id`.
pub open spec fn without_client(q: Queue, id: ClientId) -> Queue {
    q.filter(not_of(id))
}

/// The entry is not one of client `id`.
pub open spec fn not_of(id: ClientId) -> spec_fn((ClientId, Message)) -> bool {
    |e: (ClientId, Message)| e.0 != id
}

/// What the server side holds.
pub struct ServerView {
    pub clients: Set<ClientId>,
    pub next_id: nat,
    pub incoming: Queue,
    pub outgoing: Queue,
}

/// Client `id` is dropped, with every message still queued to or from it.
pub open spec fn disconnect_spec(v: ServerView, id: ClientId) -> ServerView {
    ServerView {
        clients: v.clients.remove(id),
        next_id: v.next_id,
        incoming: without_client(v.incoming, id),
        outgoing: without_client(v.outgoing, id),
    }
}

/// A message for a connected client is queued and the send succeeds; one
/// for any other id is dropped.
pub open spec fn send_spec(v: ServerView, id: ClientId, msg: Message) -> (ServerView, bool) {
    if v.clients.contains(id) {
        (ServerView { outgoing: v.outgoing.push((id, msg)), ..v }, true)
    } else {
        (v, false)
    }
}

/// The server's connection table and message queues.
pub struct Server {
    clients: Vec<ClientId>,
    next_id: ClientId,
    incoming: VecDeque<(ClientId, Message)>,
    outgoing: VecDeque<(ClientId, Message)>,
}

impl View for Server {
    type V = ServerView;

    closed spec fn view(&self) -> ServerView {
        ServerView {
            clients: Set::new(|id: ClientId| self.clients@.contains(id)),
            next_id: self.next_id as nat,
            incoming: self.incoming@,
            outgoing: self.outgoing@,
        }
    }
}

fn drop_client(q: &mut VecDeque<(ClientId, Message)>, id: ClientId)
    ensures
        final(q)@ == without_client(old(q)@, id),
{
    let mut kept: VecDeque<(ClientId, Message)> = VecDeque::new();
    let ghost src = q@;
    let mut i: usize = 0;
    let len = q.len();
    while i < len
        invariant
            len == src.len(),
            i <= len,
            q@ == src.skip(i as int),
            kept@ == src.take(i as int).filter(not_of(id)),
        decreases len - i,
    {
        let e = q.pop_front();
        match e {
            Some(entry) => {
                proof {
                    assert(src.take(i + 1).drop_last() =~= src.take(i as int));
                    assert(src.take(i + 1).last() == entry);
                    reveal(Seq::filter);
                    assert(not_of(id)(entry) == (entry.0 != id));
                    assert(src.take(i + 1).filter(not_of(id)) == if not_of(id)(entry) {
                        src.take(i as int).filter(not_of(id)).push(entry)
                    } else {
                        src.take(i as int).filter(not_of(id))
                    });
                }
                if entry.0 != id {
                    kept.push_back(entry);
                }
            },
            None => {
                assert(false);
            },
        }
        i = i + 1;
        assert(q@ =~= src.skip(i as int));
    }
    assert(src.take(len as int) =~= src);
    *q = kept;
}

impl Server {
    /// The ids are strictly increasing and all below the next one.
    pub closed spec fn wf(&self) -> bool {
        &&& forall|i: int, j: int|
            0 <= i < j < self.clients@.len() ==> self.clients@[i] < self.clients@[j]
        &&& forall|i: int| 0 <= i < self.clients@.len() ==> self.clients@[i] < self.next_id
        &&& self.next_id > ACCEPT_KEY
    }

    /// No client yet.
    pub fn new() -> (r: Server)
        ensures
            r.wf(),
            r@.clients == Set::<ClientId>::empty(),
            r@.next_id == ACCEPT_KEY + 1,
            r@.incoming == Seq::<(ClientId, Message)>::empty(),
            r@.outgoing == Seq::<(ClientId, Message)>::empty(),
    {
        let r = Server {
            clients: Vec::new(),
            next_id: ACCEPT_KEY + 1,
            incoming: VecDeque::new(),
            outgoing: VecDeque::new(),
        };
        assert(r@.clients =~= Set::<ClientId>::empty());
        r
    }

    /// Registers a newly accepted connection under a fresh id, one above
    /// every id given before; `None`, with nothing changed, once ids run out.
    pub fn accept(&mut self) -> (r: Option<ClientId>)
        requires
            old(self).wf(),
        ensures
            final(self).wf(),
            final(self)@.incoming == old(self)@.incoming,
            final(self)@.outgoing == old(self)@.outgoing,
            old(self)@.next_id < usize::MAX ==> {
                &&& r == Some(old(self)@.next_id as ClientId)
                &&& final(self)@.clients == old(self)@.clients.insert(old(self)@.next_id as ClientId)
                &&& final(self)@.next_id == old(self)@.next_id + 1
            },
            old(self)@.next_id == usize::MAX ==> r is None && final(self)@ == old(self)@,
            forall|id: ClientId| old(self)@.clients.contains(id) ==> id < old(self)@.next_id,
    {
        if self.next_id == usize::MAX {
            return None;
        }
        let id = self.next_id;
        self.clients.push(id);
        self.next_id = id + 1;
        proof {
            let before = old(self).clients@;
            assert(self.clients@ == before.push(id));
            assert forall|x: ClientId| #[trigger] self.clients@.contains(x) <==> (before.contains(x)
                || x == id) by {
                if before.contains(x) {
                    let k = choose|k: int| 0 <= k < before.len() && before[k] == x;
                    assert(self.clients@[k] == x);
                }
                if x == id {
                    assert(self.clients@[before.len() as int] == id);
                }
                if self.clients@.contains(x) {
                    let k = choose|k: int| 0 <= k < self.clients@.len() && self.clients@[k] == x;
                    if k < before.len() {
                        assert(before[k] == x);
                    }
                }
            }
            assert(self@.clients =~= old(self)@.clients.insert(id));
        }
        Some(id)
    }

    /// Whether client `id` is connected.
    pub fn is_connected(&self, id: ClientId) -> (r: bool)
        ensures
            r == self@.clients.contains(id),
    {
        let mut i: usize = 0;
        while i < self.clients.len()
            invariant
                i <= self.clients@.len(),
                forall|j: int| 0 <= j < i ==> self.clients@[j] != id,
            decreases self.clients@.len() - i,
        {
            if self.clients[i] == id {
                return true;
            }
            i = i + 1;
        }
        false
    }

    /// The connected clients, in the order they connected.
    pub fn clients(&self) -> (r: Vec<ClientId>)
        requires
            self.wf(),
        ensures
            forall|id: ClientId| self@.clients.contains(id) <==> r@.contains(id),
            forall|i: int, j: int| 0 <= i < j < r@.len() ==> r@[i] < r@[j],
    {
        let mut r: Vec<ClientId> = Vec::new();
        let mut i: usize = 0;
        while i < self.clients.len()
            invariant
                i <= self.clients@.len(),
                r@ == self.clients@.take(i as int),
            decreases self.clients@.len() - i,
        {
            r.push(self.clients[i]);
            i = i + 1;
            assert(r@ =~= self.clients@.take(i as int));
        }
        assert(r@ =~= self.clients@);
        r
    }

    /// Drops client `id` and every message still queued to or from it; the
    /// other clients are untouched.
    pub fn disconnect(&mut self, id: ClientId)
        requires
            old(self).wf(),
        ensures
            final(self).wf(),
            final(self)@ == disconnect_spec(old(self)@, id),
    {
        let mut i: usize = 0;
        while i < self.clients.len() && self.clients[i] != id
            invariant
                i <= self.clients@.len(),
                forall|j: int| 0 <= j < i ==> self.clients@[j] != id,
            decreases self.clients@.len() - i,
        {
            i = i + 1;
        }
        if i < self.clients.len() {
            let ghost before = self.clients@;
            self.clients.remove(i);
            proof {
                assert forall|x: ClientId| #[trigger] self.clients@.contains(x) <==> (before.contains(
                    x,
                ) && x != id) by {
                    if self.clients@.contains(x) {
                        let k = choose|k: int| 0 <= k < self.clients@.len() && self.clients@[k] == x;
                        if k < i {
                            assert(before[k] == x);
                            assert(before[k] < before[i as int]);
                        } else {
                            assert(before[k + 1] == x);
                            assert(before[i as int] < before[k + 1]);
                        }
                    }
                    if before.contains(x) && x != id {
                        let k = choose|k: int| 0 <= k < before.len() && before[k] == x;
                        if k < i {
                            assert(self.clients@[k] == x);
                        } else {
                            assert(k != i);
                            assert(self.clients@[k - 1] == x);
                        }
                    }
                }
            }
        }
        drop_client(&mut self.incoming, id);
        drop_client(&mut self.outgoing, id);
        proof {
            assert(self@.clients =~= old(self)@.clients.remove(id));
        }
    }

    /// Decides on the outcome of a read from client `id`. A message is
    /// queued for the application, a ping is answered with a pong, would-block
    /// and other control frames change nothing, and a failure drops the
    /// client alone. A read for an id that is not connected changes nothing.
    pub fn on_read(&mut self, id: ClientId, outcome: ReadOutcome) -> (r: ReadAction)
        requires
            old(self).wf(),
        ensures
            final(self).wf(),
            !old(self)@.clients.contains(id) ==> r is Nothing && final(self)@ == old(self)@,
            old(self)@.clients.contains(id) ==> match outcome {
                ReadOutcome::Received(m) => r is Delivered && final(self)@ == (ServerView {
                    incoming: old(self)@.incoming.push((id, m)),
                    ..old(self)@
                }),
                ReadOutcome::Ping(p) => r == ReadAction::ReplyPong(p) && final(self)@ == old(
                    self,
                )@,
                ReadOutcome::Unhandled => r is Nothing && final(self)@ == old(self)@,
                ReadOutcome::WouldBlock => r is Nothing && final(self)@ == old(self)@,
                ReadOutcome::Failed => r is Disconnect && final(self)@ == disconnect_spec(
                    old(self)@,
                    id,
                ),
            },
    {
        if !self.is_connected(id) {
            return ReadAction::Nothing;
        }
        match outcome {
            ReadOutcome::Received(m) => {
                self.incoming.push_back((id, m));
                ReadAction::Delivered
            },
            ReadOutcome::Ping(p) => ReadAction::ReplyPong(p),
            ReadOutcome::Unhandled => ReadAction::Nothing,
            ReadOutcome::WouldBlock => ReadAction::Nothing,
            ReadOutcome::Failed => {
                self.disconnect(id);
                ReadAction::Disconnect
            },
        }
    }

    /// Decides on the outcome of a write to client `id`: a failure drops the
    /// client alone; the result says whether it is still connected.
    pub fn on_write(&mut self, id: ClientId, outcome: WriteOutcome) -> (r: bool)
        requires
            old(self).wf(),
        ensures
            final(self).wf(),
            outcome == WriteOutcome::Failed ==> final(self)@ == disconnect_spec(old(self)@, id),
            outcome != WriteOutcome::Failed ==> final(self)@ == old(self)@,
            r == final(self)@.clients.contains(id),
    {
        if outcome == WriteOutcome::Failed {
            self.disconnect(id);
        }
        self.is_connected(id)
    }

    /// The oldest message from any client, for the application.
    pub fn poll(&mut self) -> (r: Option<(ClientId, Message)>)
        requires
            old(self).wf(),
        ensures
            final(self).wf(),
            old(self)@.incoming.len() == 0 ==> r is None && final(self)@ == old(self)@,
            old(self)@.incoming.len() > 0 ==> r == Some(old(self)@.incoming[0]) && final(self)@
                == (ServerView { incoming: old(self)@.incoming.skip(1), ..old(self)@ }),
    {
        let r = self.incoming.pop_front();
        proof {
            assert(old(self)@.incoming.skip(1) =~= self@.incoming || old(self)@.incoming.len()
                == 0);
        }
        r
    }

    /// Queues `msg` for client `id`; false, with nothing queued, when it is
    /// not connected.
    pub fn send(&mut self, client: ClientId, msg: Message) -> (r: bool)
        requires
            old(self).wf(),
        ensures
            final(self).wf(),
            (final(self)@, r) == send_spec(old(self)@, client, msg),
    {
        if self.is_connected(client) {
            self.outgoing.push_back((client, msg));
            true
        } else {
            false
        }
    }

    /// The oldest message queued for the network, with its client.
    pub fn next_outgoing(&mut self) -> (r: Option<(ClientId, Message)>)
        requires
            old(self).wf(),
        ensures
            final(self).wf(),
            old(self)@.outgoing.len() == 0 ==> r is None && final(self)@ == old(self)@,
            old(self)@.outgoing.len() > 0 ==> r == Some(old(self)@.outgoing[0]) && final(self)@
                == (ServerView { outgoing: old(self)@.outgoing.skip(1), ..old(self)@ }),
    {
        let r = self.outgoing.pop_front();
        proof {
            assert(old(self)@.outgoing.skip(1) =~= self@.outgoing || old(self)@.outgoing.len()
                == 0);
        }
        r
    }
}

/// What the client side holds.
pub struct ClientView {
    pub connected: bool,
    pub incoming: Seq<Message>,
    pub outgoing: Seq<Message>,
}

/// The connection is torn down: nothing connected, nothing queued.
pub open spec fn closed_client() -> ClientView {
    ClientView { connected: false, incoming: Seq::empty(), outgoing: Seq::empty() }
}

/// A websocket client's connection state and message queues.
pub struct Client {
    connected: bool,
    incoming: VecDeque<Message>,
    outgoing: VecDeque<Message>,
}

impl View for Client {
    type V = ClientView;

    closed spec fn view(&self) -> ClientView {
        ClientView { connected: self.connected, incoming: self.incoming@, outgoing: self.outgoing@ }
    }
}

impl Client {
    /// Not connected.
    pub fn new() -> (r: Client)
        ensures
            r@ == closed_client(),
    {
        Client { connected: false, incoming: VecDeque::new(), outgoing: VecDeque::new() }
    }

    /// The connection was established: connected, with empty queues.
    pub fn connect(&mut self)
        ensures
            final(self)@ == (ClientView { connected: true, ..closed_client() }),
    {
        self.connected = true;
        self.incoming = VecDeque::new();
        self.outgoing = VecDeque::new();
    }

    /// Drops the connection and every queued message.
    pub fn disconnect(&mut self)
        ensures
            final(self)@ == closed_client(),
    {
        self.connected = false;
        self.incoming = VecDeque::new();
        self.outgoing = VecDeque::new();
    }

    pub fn is_connected(&self) -> (r: bool)
        ensures
            r == self@.connected,
    {
        self.connected
    }

    /// Decides on the outcome of a read: a message is queued for the
    /// application, a ping is answered with a pong, would-block and other
    /// control frames change nothing, and a failure tears the connection
    /// down. Nothing happens while not connected.
    pub fn on_read(&mut self, outcome: ReadOutcome) -> (r: ReadAction)
        ensures
            !old(self)@.connected ==> r is Nothing && final(self)@ == old(self)@,
            old(self)@.connected ==> match outcome {
                ReadOutcome::Received(m) => r is Delivered && final(self)@ == (ClientView {
                    incoming: old(self)@.incoming.push(m),
                    ..old(self)@
                }),
                ReadOutcome::Ping(p) => r == ReadAction::ReplyPong(p) && final(self)@ == old(
                    self,
                )@,
                ReadOutcome::Unhandled => r is Nothing && final(self)@ == old(self)@,
                ReadOutcome::WouldBlock => r is Nothing && final(self)@ == old(self)@,
                ReadOutcome::Failed => r is Disconnect && final(self)@ == closed_client(),
            },
    {
        if !self.connected {
            return ReadAction::Nothing;
        }
        match outcome {
            ReadOutcome::Received(m) => {
                self.incoming.push_back(m);
                ReadAction::Delivered
            },
            ReadOutcome::Ping(p) => ReadAction::ReplyPong(p),
            ReadOutcome::Unhandled => ReadAction::Nothing,
            ReadOutcome::WouldBlock => ReadAction::Nothing,
            ReadOutcome::Failed => {
                self.disconnect();
                ReadAction::Disconnect
            },
        }
    }

    /// Decides on the outcome of a write: a failure tears the connection
    /// down; the result says whether it is still up.
    pub fn on_write(&mut self, outcome: WriteOutcome) -> (r: bool)
        ensures
            outcome == WriteOutcome::Failed ==> final(self)@ == closed_client(),
            outcome != WriteOutcome::Failed ==> final(self)@ == old(self)@,
            r == final(self)@.connected,
    {
        if outcome == WriteOutcome::Failed {
            self.disconnect();
        }
        self.connected
    }

    /// The oldest message received and not yet taken.
    pub fn poll(&mut self) -> (r: Option<Message>)
        ensures
            old(self)@.incoming.len() == 0 ==> r is None && final(self)@ == old(self)@,
            old(self)@.incoming.len() > 0 ==> r == Some(old(self)@.incoming[0]) && final(self)@
                == (ClientView { incoming: old(self)@.incoming.skip(1), ..old(self)@ }),
    {
        let r = self.incoming.pop_front();
        proof {
            assert(old(self)@.incoming.skip(1) =~= self@.incoming || old(self)@.incoming.len()
                == 0);
        }
        r
    }

    /// Queues `msg` for the server; false, with nothing queued, while not
    /// connected.
    pub fn send(&mut self, msg: Message) -> (r: bool)
        ensures
            r == old(self)@.connected,
            r ==> final(self)@ == (ClientView { outgoing: old(self)@.outgoing.push(msg), ..old(self)@ }),
            !r ==> final(self)@ == old(self)@,
    {
        if self.connected {
            self.outgoing.push_back(msg);
            true
        } else {
            false
        }
    }

    /// The oldest message queued for the network.
    pub fn next_outgoing(&mut self) -> (r: Option<Message>)
        ensures
            old(self)@.outgoing.len() == 0 ==> r is None && final(self)@ == old(self)@,
            old(self)@.outgoing.len() > 0 ==> r == Some(old(self)@.outgoing[0]) && final(self)@
                == (ClientView { outgoing: old(self)@.outgoing.skip(1), ..old(self)@ }),
    {
        let r = self.outgoing.pop_front();
        proof {
            assert(old(self)@.outgoing.skip(1) =~= self@.outgoing || old(self)@.outgoing.len()
                == 0);
        }
        r
    }
}

/// Connection isolation: dropping client `a` after an error on its socket
/// leaves every other client connected, and a send to another connected
/// client `b` still succeeds.
pub proof fn lemma_connection_isolation(v: ServerView, a: ClientId, b: ClientId, msg: Message)
    requires
        v.clients.contains(a),
        v.clients.contains(b),
        a != b,
    ensures
        !disconnect_spec(v, a).clients.contains(a),
        disconnect_spec(v, a).clients == v.clients.remove(a),
        disconnect_spec(v, a).clients.contains(b),
        send_spec(disconnect_spec(v, a), b, msg).1,
        send_spec(disconnect_spec(v, a), b, msg).0.outgoing == without_client(v.outgoing, a).push(
            (b, msg),
        ),
{
}

} // verus!

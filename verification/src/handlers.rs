use vstd::prelude::*;

use crate::registry::{ChannelId, ClientRegistry};

verus! {

/// The public key of a host or of a user, as the `ssh-key` crate holds it.
#[verifier::external_type_specification]
#[verifier::external_body]
pub struct ExPublicKey(ssh_key::PublicKey);

/// The answer of a server to an authentication attempt.
#[derive(Clone, Copy, Debug, PartialEq, Eq, Structural)]
pub enum Auth {
    Accept,
    Reject,
}

/// A message that arrives on a channel, as the handlers read it.
pub enum ChannelMsg {
    /// Bytes of the channel's data stream.
    Data { data: Vec<u8> },
    /// The other side will send no more data.
    Eof,
    /// The other side closed the channel.
    Close,
    /// Any other message.
    Other,
}

/// The client of the test sessions: it trusts every server key.
pub struct Client;

impl Client {
    /// Accepts the server's host key, whichever it is.
    pub fn check_server_key(&mut self, server_public_key: &ssh_key::PublicKey) -> (trusted: bool)
        ensures
            trusted,
    {
        true
    }
}

/// A server that echoes what a client sends on a channel, numbers the
/// clients that connect, and registers each session channel that a client
/// opens under (client number, channel).
pub struct Server {
    pub id: usize,
}

/// `given` is the handler that `before` hands out to a new client, and
/// `after` is the server afterwards.
pub open spec fn hands_out(before: Server, given: Server, after: Server) -> bool {
    given.id == before.id && after.id == before.id + 1
}

impl Server {
    /// A server that has seen no client yet.
    pub fn new() -> (s: Self)
        ensures
            s.id == 0,
    {
        Server { id: 0 }
    }

    /// The handler for a client that connects: it carries the current client
    /// number, and the server counts one more client.
    pub fn new_client(&mut self) -> (handler: Server)
        requires
            old(self).id < usize::MAX,
        ensures
            hands_out(*old(self), handler, *final(self)),
    {
        let s = Server { id: self.id };
        self.id = self.id + 1;
        s
    }

    /// Accepts the session channel that the client opens, registering
    /// `handle` under (this client's number, `channel`).
    pub fn channel_open_session<H>(
        &self,
        clients: &mut ClientRegistry<H>,
        channel: ChannelId,
        handle: H,
    ) -> (accepted: bool)
        ensures
            accepted,
            final(clients)@ == old(clients)@.insert((self.id, channel), handle),
            final(clients)@.dom().finite(),
            final(clients)@.dom().len() == old(clients)@.dom().len() + (if old(
                clients,
            )@.dom().contains((self.id, channel)) {
                0int
            } else {
                1int
            }),
    {
        let _ = clients.insert(self.id, channel, handle);
        true
    }

    /// Accepts every user with every public key, and leaves the server as it
    /// was.
    pub fn auth_publickey(&mut self, user: &str, public_key: &ssh_key::PublicKey) -> (a: Auth)
        ensures
            a == Auth::Accept,
            *final(self) == *old(self),
    {
        Auth::Accept
    }

    /// The reply to data that arrives on `channel`: the same bytes, on the
    /// same channel; the server stays as it was.
    pub fn data(&mut self, channel: ChannelId, data: &[u8]) -> (reply: (ChannelId, Vec<u8>))
        ensures
            reply.0 == channel,
            reply.1@ == data@,
            *final(self) == *old(self),
    {
        (channel, slice_to_vec(data))
    }
}

/// A copy of the bytes of `data`.
fn slice_to_vec(data: &[u8]) -> (v: Vec<u8>)
    ensures
        v@ == data@,
{
    let mut v: Vec<u8> = Vec::new();
    let mut i: usize = 0;
    while i < data.len()
        invariant
            i <= data@.len(),
            v@ == data@.subrange(0, i as int),
        decreases data@.len() - i,
    {
        v.push(data[i]);
        i = i + 1;
        assert(v@ =~= data@.subrange(0, i as int));
    }
    assert(data@.subrange(0, data@.len() as int) =~= data@);
    v
}

/// A server that overrides no handler: every request gets the default
/// answer of the SSH implementation.
#[derive(Clone, Copy, Debug, PartialEq, Eq, Structural)]
pub struct DefaultServer;

impl DefaultServer {
    /// The handler for a client that connects: a copy of this server, which
    /// stays as it was.
    pub fn new_client(&mut self) -> (handler: DefaultServer)
        ensures
            handler == *old(self),
            *final(self) == *old(self),
    {
        *self
    }
}

/// A server that accepts every public key and hands out, once, the sender
/// through which it tells that a client authenticated.
pub struct AuthSignalServer<S> {
    pub did_auth: Option<S>,
}

impl<S> AuthSignalServer<S> {
    /// A server with no one waiting for an authentication.
    pub fn new() -> (s: Self)
        ensures
            s.did_auth is None,
    {
        AuthSignalServer { did_auth: None }
    }

    /// Stores the sending half of a new one-shot channel, whose receiving
    /// half waits for the next authentication.
    pub fn get_auth_waiter(&mut self, sender: S)
        ensures
            final(self).did_auth == Some(sender),
    {
        self.did_auth = Some(sender);
    }

    /// Accepts every user with every public key.
    pub fn auth_publickey(&mut self, user: &str, public_key: &ssh_key::PublicKey) -> (a: Auth)
        ensures
            a == Auth::Accept,
            *final(self) == *old(self),
    {
        Auth::Accept
    }

    /// After a client authenticated: the sender to signal through, if one
    /// is waiting; it is handed out once.
    pub fn auth_succeeded(&mut self) -> (signal: Option<S>)
        ensures
            signals(old(self).did_auth, signal, final(self).did_auth),
    {
        self.did_auth.take()
    }
}

/// A server that accepts every public key and every session channel, and
/// hands the first session channel that a client opens to whoever waits for
/// it.
pub struct ChannelHandoffServer<S> {
    pub channel: Option<S>,
}

impl<S> ChannelHandoffServer<S> {
    /// A server with no one waiting for a channel.
    pub fn new() -> (s: Self)
        ensures
            s.channel is None,
    {
        ChannelHandoffServer { channel: None }
    }

    /// Stores the sending half of a new one-shot channel, whose receiving
    /// half waits for the next session channel.
    pub fn get_channel_waiter(&mut self, sender: S)
        ensures
            final(self).channel == Some(sender),
    {
        self.channel = Some(sender);
    }

    /// Accepts every user with every public key.
    pub fn auth_publickey(&mut self, user: &str, public_key: &ssh_key::PublicKey) -> (a: Auth)
        ensures
            a == Auth::Accept,
            *final(self) == *old(self),
    {
        Auth::Accept
    }

    /// Accepts a session channel; where someone waits for one, the sender to
    /// hand it over through, which is handed out once.
    pub fn channel_open_session(&mut self) -> (r: (Option<S>, bool))
        ensures
            signals(old(self).channel, r.0, final(self).channel),
            r.1,
    {
        (self.channel.take(), true)
    }
}

/// What a server that echoes one message does with a message on its channel.
pub enum EchoStep {
    /// Send these bytes back, close the channel and stop.
    ReplyAndClose(Vec<u8>),
    /// Wait for the next message.
    Wait,
}

/// The step of a server that echoes the first data that arrives on a
/// channel and then closes it; it passes over every other message.
pub fn echo_once_step(msg: ChannelMsg) -> (step: EchoStep)
    ensures
        match msg {
            ChannelMsg::Data { data } => step matches EchoStep::ReplyAndClose(reply) && reply@
                == data@,
            _ => step is Wait,
        },
{
    match msg {
        ChannelMsg::Data { data } => EchoStep::ReplyAndClose(data),
        _ => EchoStep::Wait,
    }
}

/// The state that a server records of a client's port forwarding: none
/// asked for yet.
pub const FORWARD_NONE: u8 = 0;

/// The state that a server records of a client's port forwarding: a
/// tcpip-forward request arrived.
pub const FORWARD_REQUESTED: u8 = 1;

/// The state that a server records of a client's port forwarding: a
/// cancel-tcpip-forward request arrived.
pub const FORWARD_CANCELLED: u8 = 2;

/// A server that accepts every public key and every forwarding request and
/// cancellation, and records the last one that arrived.
pub struct ForwardTrackingServer {
    pub state: u8,
}

impl ForwardTrackingServer {
    /// A server that has seen no forwarding request.
    pub fn new() -> (s: Self)
        ensures
            s.state == FORWARD_NONE,
    {
        ForwardTrackingServer { state: FORWARD_NONE }
    }

    /// Accepts every user with every public key.
    pub fn auth_publickey(&mut self, user: &str, public_key: &ssh_key::PublicKey) -> (a: Auth)
        ensures
            a == Auth::Accept,
            *final(self) == *old(self),
    {
        Auth::Accept
    }

    /// Accepts a request to forward `address`, `port`, leaving the port as
    /// the client asked for it, and records that it arrived.
    pub fn tcpip_forward(&mut self, address: &str, port: &mut u32) -> (accepted: bool)
        ensures
            accepted,
            *final(port) == *old(port),
            final(self).state == FORWARD_REQUESTED,
    {
        self.state = FORWARD_REQUESTED;
        true
    }

    /// Accepts the cancellation of the forward of `address`, `port`, and
    /// records that it arrived.
    pub fn cancel_tcpip_forward(&mut self, address: &str, port: u32) -> (accepted: bool)
        ensures
            accepted,
            final(self).state == FORWARD_CANCELLED,
    {
        self.state = FORWARD_CANCELLED;
        true
    }
}

/// Whether the recorded `state` shows that a cancellation was processed, for
/// which the bench waits before it opens a forwarded channel.
pub fn cancel_processed(state: u8) -> (b: bool)
    ensures
        b == (state >= FORWARD_CANCELLED),
{
    state >= FORWARD_CANCELLED
}

/// Two servers that are equal hand out equal handlers and stay equal.
pub proof fn law_new_client_deterministic(
    s1: Server,
    s2: Server,
    a: Server,
    s1_after: Server,
    b: Server,
    s2_after: Server,
)
    requires
        s1 == s2,
        hands_out(s1, a, s1_after),
        hands_out(s2, b, s2_after),
    ensures
        a == b,
        s1_after == s2_after,
{
}

/// The table that `start` becomes after the registrations `regs`, in order:
/// the handler numbered `regs[i].0` registers `regs[i].2` for its channel
/// `regs[i].1`, as `Server::channel_open_session` does.
pub open spec fn after_registrations<H>(
    start: Map<(usize, ChannelId), H>,
    regs: Seq<(usize, ChannelId, H)>,
) -> Map<(usize, ChannelId), H>
    decreases regs.len(),
{
    if regs.len() == 0 {
        start
    } else {
        after_registrations(start, regs.drop_last()).insert(
            (regs.last().0, regs.last().1),
            regs.last().2,
        )
    }
}

/// However many handlers register channels, and in whatever order, every
/// entry of a table that started empty was written by the handler whose
/// number is the first part of its key, for the channel that is the second
/// part, and holds what one of that handler's registrations of that channel
/// stored.
pub proof fn law_entries_written_by_their_handler<H>(regs: Seq<(usize, ChannelId, H)>)
    ensures
        forall|k: (usize, ChannelId)|
            #[trigger] after_registrations(Map::<(usize, ChannelId), H>::empty(), regs).dom().contains(
                k,
            ) ==> exists|i: int|
                0 <= i < regs.len() && (#[trigger] regs[i]).0 == k.0 && regs[i].1 == k.1
                    && regs[i].2 == after_registrations(
                    Map::<(usize, ChannelId), H>::empty(),
                    regs,
                )[k],
    decreases regs.len(),
{
    if regs.len() > 0 {
        let prev = regs.drop_last();
        law_entries_written_by_their_handler(prev);
        let m = after_registrations(Map::<(usize, ChannelId), H>::empty(), regs);
        let mp = after_registrations(Map::<(usize, ChannelId), H>::empty(), prev);
        assert forall|k: (usize, ChannelId)| #[trigger] m.dom().contains(k) implies exists|i: int|
            0 <= i < regs.len() && (#[trigger] regs[i]).0 == k.0 && regs[i].1 == k.1 && regs[i].2
                == m[k] by {
            let n = regs.len() - 1;
            if k == (regs[n].0, regs[n].1) {
                assert(regs[n].0 == k.0 && regs[n].1 == k.1 && regs[n].2 == m[k]);
            } else {
                assert(mp.dom().contains(k));
                let i = choose|i: int|
                    0 <= i < prev.len() && (#[trigger] prev[i]).0 == k.0 && prev[i].1 == k.1
                        && prev[i].2 == mp[k];
                assert(regs[i] == prev[i]);
            }
        }
    }
}

/// A registration by the handler numbered `id` leaves every entry whose key
/// carries another handler's number as it was.
pub proof fn law_registration_keeps_other_handlers<H>(
    start: Map<(usize, ChannelId), H>,
    regs: Seq<(usize, ChannelId, H)>,
    id: usize,
    channel: ChannelId,
    handle: H,
    k: (usize, ChannelId),
)
    requires
        k.0 != id,
    ensures
        ({
            let before = after_registrations(start, regs);
            let after = after_registrations(start, regs.push((id, channel, handle)));
            &&& after.dom().contains(k) == before.dom().contains(k)
            &&& before.dom().contains(k) ==> after[k] == before[k]
        }),
{
    assert(regs.push((id, channel, handle)).drop_last() =~= regs);
}

/// The handler that a server hands out carries the server's number from
/// before the call, and the server's number goes up by one.
pub proof fn law_handler_carries_number_before_call(
    before: Server,
    given: Server,
    after: Server,
)
    requires
        hands_out(before, given, after),
    ensures
        given.id == before.id,
        after.id == before.id + 1,
{
}

/// Over any run of clients connecting to one server, the client that
/// connects `j`-th (counting from 0) gets the server's starting number plus
/// `j`: a server that starts at 0 numbers its clients 0, 1, 2, ...
pub proof fn law_clients_numbered_in_connection_order(
    servers: Seq<Server>,
    handlers: Seq<Server>,
)
    requires
        servers.len() == handlers.len() + 1,
        forall|j: int|
            0 <= j < handlers.len() ==> hands_out(
                #[trigger] servers[j],
                handlers[j],
                servers[j + 1],
            ),
    ensures
        forall|j: int| 0 <= j < handlers.len() ==> #[trigger] handlers[j].id == servers[0].id + j,
        servers[handlers.len() as int].id == servers[0].id + handlers.len(),
    decreases handlers.len(),
{
    if handlers.len() > 0 {
        let n = handlers.len() - 1;
        let s2 = servers.drop_last();
        let h2 = handlers.drop_last();
        assert forall|j: int| 0 <= j < h2.len() implies hands_out(
            #[trigger] s2[j],
            h2[j],
            s2[j + 1],
        ) by {
            assert(hands_out(servers[j], handlers[j], servers[j + 1]));
        }
        law_clients_numbered_in_connection_order(s2, h2);
        assert(hands_out(servers[n], handlers[n], servers[n + 1]));
        assert forall|j: int| 0 <= j < handlers.len() implies #[trigger] handlers[j].id
            == servers[0].id + j by {
            if j < n {
                assert(h2[j] == handlers[j]);
            }
        }
    }
}

/// The bench sees a cancellation as processed only in the state that a
/// cancel-tcpip-forward request leaves: not before any request, not after a
/// tcpip-forward request alone.
pub proof fn law_cancel_seen_only_after_cancel()
    ensures
        !(FORWARD_NONE >= FORWARD_CANCELLED),
        !(FORWARD_REQUESTED >= FORWARD_CANCELLED),
        FORWARD_CANCELLED >= FORWARD_CANCELLED,
        FORWARD_NONE != FORWARD_REQUESTED,
{
}

/// Successive clients of an echo server get distinct, increasing numbers.
pub proof fn law_client_numbers_increase(
    s0: Server,
    a: Server,
    s1: Server,
    b: Server,
    s2: Server,
)
    requires
        hands_out(s0, a, s1),
        hands_out(s1, b, s2),
    ensures
        a.id < b.id,
        s2.id == s0.id + 2,
{
}

/// `signal` is what a server whose waiting sender was `before` hands out
/// when a client authenticates or opens a session channel, and `after` is
/// the waiting sender afterwards.
pub open spec fn signals<S>(before: Option<S>, signal: Option<S>, after: Option<S>) -> bool {
    signal == before && after is None
}

/// A waiting sender is handed out at most once: of two successive events,
/// the second hands out nothing unless a new waiter was stored in between.
pub proof fn law_waiter_signalled_once<S>(
    w0: Option<S>,
    first: Option<S>,
    w1: Option<S>,
    second: Option<S>,
    w2: Option<S>,
)
    requires
        signals(w0, first, w1),
        signals(w1, second, w2),
    ensures
        first == w0,
        second is None,
{
}

} // verus!

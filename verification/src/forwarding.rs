use vstd::prelude::*;

use crate::keyed::{has_key, key_set, keys_unique, lemma_push_fresh, lemma_remove};

verus! {

/// A channel that the server asks the client to open (SSH_MSG_CHANNEL_OPEN
/// sent by the server), with what the client's decision reads of it.
pub enum ServerChannelOpen {
    /// An interactive session: only a client opens those.
    Session,
    /// A connection to a host and port that the opener names: only a client
    /// asks for those.
    DirectTcpip,
    /// A connection that arrived on a port that the client asked the server
    /// to listen on.
    ForwardedTcpip { connected_address: String, connected_port: u32 },
    /// A connection to the client's X11 display.
    X11,
    /// A channel type that the client does not know.
    Other,
}

/// What the client has asked the server to forward to it, which decides
/// which channels the server may open.
pub struct ClientChannelPolicy {
    forwards: Vec<(String, u32)>,
    x11: bool,
}

/// The (address, port) that an entry of the forward list stands for.
pub open spec fn forward_key() -> spec_fn((String, u32)) -> (Seq<char>, u32) {
    |e: (String, u32)| (e.0@, e.1)
}

/// The set of forwards, as (address, port), that `s` stands for.
pub open spec fn forward_set(s: Seq<(String, u32)>) -> Set<(Seq<char>, u32)> {
    key_set(s, forward_key())
}

/// Whether a client whose active forwards are `forwards` and who asked for X11
/// forwarding exactly when `x11` accepts the channel `req` that the server opens.
pub open spec fn spec_accepts(
    forwards: Set<(Seq<char>, u32)>,
    x11: bool,
    req: ServerChannelOpen,
) -> bool {
    match req {
        ServerChannelOpen::ForwardedTcpip { connected_address, connected_port } => forwards.contains(
            (connected_address@, connected_port),
        ),
        ServerChannelOpen::X11 => x11,
        _ => false,
    }
}

/// The port that a granted tcpip-forward request reports: the server tells
/// the port it bound only where the client let it choose one (port 0), and
/// the reply carries no port, read as 0, otherwise.
pub open spec fn spec_reported_port(requested_port: u32, bound_port: u32) -> u32 {
    if requested_port == 0 {
        bound_port
    } else {
        0
    }
}

/// The port that the server's reply to a granted tcpip-forward request
/// reports for `requested_port`, when it listens on `bound_port`.
pub fn reported_port(requested_port: u32, bound_port: u32) -> (p: u32)
    ensures
        p == spec_reported_port(requested_port, bound_port),
{
    if requested_port == 0 {
        bound_port
    } else {
        0
    }
}

/// The port on which the server listens for a granted request: the one asked
/// for, or the one it chose where the client asked for port 0.
pub open spec fn spec_listening_port(requested_port: u32, reported: u32) -> u32 {
    if requested_port == 0 {
        reported
    } else {
        requested_port
    }
}

impl ClientChannelPolicy {
    /// The active forwards, as (address, port).
    pub closed spec fn forwards(&self) -> Set<(Seq<char>, u32)> {
        forward_set(self.forwards@)
    }

    /// Whether the client asked for X11 forwarding.
    pub closed spec fn x11_requested(&self) -> bool {
        self.x11
    }

    /// No forward is recorded twice.
    #[verifier::type_invariant]
    spec fn inv(self) -> bool {
        keys_unique(self.forwards@, forward_key())
    }

    /// A client that has asked for nothing.
    pub fn new() -> (p: Self)
        ensures
            p.forwards() == Set::<(Seq<char>, u32)>::empty(),
            !p.x11_requested(),
    {
        let p = ClientChannelPolicy { forwards: Vec::new(), x11: false };
        assert(p.forwards() =~= Set::<(Seq<char>, u32)>::empty());
        p
    }

    fn position(&self, address: &str, port: u32) -> (r: Option<usize>)
        ensures
            match r {
                Some(i) => i < self.forwards@.len() && self.forwards@[i as int].0@ == address@
                    && self.forwards@[i as int].1 == port,
                None => !has_key(self.forwards@, forward_key(), (address@, port)),
            },
    {
        let mut i: usize = 0;
        while i < self.forwards.len()
            invariant
                i <= self.forwards@.len(),
                forall|j: int|
                    0 <= j < i ==> forward_key()(#[trigger] self.forwards@[j]) != (address@, port),
            decreases self.forwards@.len() - i,
        {
            if self.forwards[i].1 == port && str_eq(self.forwards[i].0.as_str(), address) {
                return Some(i);
            }
            i = i + 1;
        }
        None
    }

    /// Records that the server granted the client's request to forward
    /// connections on `address`, port `requested_port`; `reported` is the
    /// port that its reply carried.
    pub fn forward_granted(&mut self, address: &str, requested_port: u32, reported: u32)
        ensures
            final(self).forwards() == old(self).forwards().insert(
                (address@, spec_listening_port(requested_port, reported)),
            ),
            final(self).x11_requested() == old(self).x11_requested(),
    {
        let port = if requested_port == 0 {
            reported
        } else {
            requested_port
        };
        proof {
            use_type_invariant(&*self);
        }
        match self.position(address, port) {
            Some(i) => {
                proof {
                    assert(forward_key()(self.forwards@[i as int]) == (address@, port));
                    assert(self.forwards() =~= self.forwards().insert((address@, port)));
                }
            },
            None => {
                let entry = (address.to_owned(), port);
                let mut forwards: Vec<(String, u32)> = Vec::new();
                std::mem::swap(&mut forwards, &mut self.forwards);
                proof {
                    assert(forward_key()(entry) == (address@, port));
                    lemma_push_fresh(forwards@, forward_key(), entry);
                }
                forwards.push(entry);
                self.forwards = forwards;
            },
        }
    }

    /// Records that the client cancelled the forward of `address`, `port`.
    pub fn forward_cancelled(&mut self, address: &str, port: u32)
        ensures
            final(self).forwards() == old(self).forwards().remove((address@, port)),
            final(self).x11_requested() == old(self).x11_requested(),
    {
        proof {
            use_type_invariant(&*self);
        }
        match self.position(address, port) {
            Some(i) => {
                let mut forwards: Vec<(String, u32)> = Vec::new();
                std::mem::swap(&mut forwards, &mut self.forwards);
                proof {
                    assert(forward_key()(forwards@[i as int]) == (address@, port));
                    lemma_remove(forwards@, forward_key(), i as int);
                }
                forwards.remove(i);
                self.forwards = forwards;
            },
            None => {
                proof {
                    assert(self.forwards() =~= self.forwards().remove((address@, port)));
                }
            },
        }
    }

    /// Records that the server granted the client's request for X11 forwarding.
    pub fn x11_granted(&mut self)
        ensures
            final(self).forwards() == old(self).forwards(),
            final(self).x11_requested(),
    {
        proof {
            use_type_invariant(&*self);
        }
        self.x11 = true;
    }

    /// Whether the client accepts the channel `req` that the server opens:
    /// never a session or a direct-tcpip channel, nor one of an unknown type;
    /// a forwarded-tcpip channel only for an active forward; an X11 channel
    /// only after X11 forwarding was granted.
    pub fn accepts(&self, req: &ServerChannelOpen) -> (b: bool)
        ensures
            b == spec_accepts(self.forwards(), self.x11_requested(), *req),
    {
        match req {
            ServerChannelOpen::ForwardedTcpip { connected_address, connected_port } => {
                let r = self.position(connected_address.as_str(), *connected_port);
                proof {
                    if let Some(i) = r {
                        assert(forward_key()(self.forwards@[i as int]) == (
                            connected_address@,
                            *connected_port,
                        ));
                    }
                }
                r.is_some()
            },
            ServerChannelOpen::X11 => self.x11,
            _ => false,
        }
    }
}

/// Equality of two strings.
fn str_eq(a: &str, b: &str) -> (r: bool)
    ensures
        r == (a@ == b@),
{
    let ga = a.to_owned();
    let gb = b.to_owned();
    ga == gb
}

/// Whether a client accepts an X11 channel depends only on whether it
/// asked for X11 forwarding, never on the port forwards it holds: refused
/// without the request, accepted with it.
pub proof fn law_x11_decided_by_request(forwards: Set<(Seq<char>, u32)>)
    ensures
        !spec_accepts(forwards, false, ServerChannelOpen::X11),
        spec_accepts(forwards, true, ServerChannelOpen::X11),
{
}

/// Whether a client accepts a forwarded-tcpip channel depends only on
/// whether the channel's address and port are among its active forwards,
/// never on X11 forwarding.
pub proof fn law_forwarded_decided_by_forwards(
    forwards: Set<(Seq<char>, u32)>,
    x11: bool,
    address: String,
    port: u32,
)
    ensures
        spec_accepts(
            forwards,
            x11,
            ServerChannelOpen::ForwardedTcpip { connected_address: address, connected_port: port },
        ) == forwards.contains((address@, port)),
{
}

/// A request for port 0 reports exactly the port that the server bound, and
/// a request for a given port reports 0; the client then listens on the
/// reported port after a port-0 request, and on the port it asked for
/// otherwise, whatever was reported.
pub proof fn law_port_zero_reports_bound_port(bound_port: u32, requested_port: u32, reported: u32)
    ensures
        spec_reported_port(0, bound_port) == bound_port,
        requested_port != 0 ==> spec_reported_port(requested_port, bound_port) == 0,
        spec_listening_port(0, reported) == reported,
        requested_port != 0 ==> spec_listening_port(requested_port, reported) == requested_port,
{
}

/// A client never accepts a session, direct-tcpip or unknown channel that the
/// server opens, whatever it asked the server to forward.
pub proof fn law_client_only_channels_refused(forwards: Set<(Seq<char>, u32)>, x11: bool)
    ensures
        !spec_accepts(forwards, x11, ServerChannelOpen::Session),
        !spec_accepts(forwards, x11, ServerChannelOpen::DirectTcpip),
        !spec_accepts(forwards, x11, ServerChannelOpen::Other),
{
}

/// A client that asked for nothing accepts no channel that the server opens.
pub proof fn law_nothing_requested_nothing_accepted(req: ServerChannelOpen)
    ensures
        !spec_accepts(Set::<(Seq<char>, u32)>::empty(), false, req),
{
}

/// Once the server granted a forward of (address, port), the client accepts a
/// forwarded-tcpip channel for that address and port.
pub proof fn law_granted_forward_accepted(
    forwards: Set<(Seq<char>, u32)>,
    x11: bool,
    address: String,
    port: u32,
)
    ensures
        spec_accepts(
            forwards.insert((address@, port)),
            x11,
            ServerChannelOpen::ForwardedTcpip { connected_address: address, connected_port: port },
        ),
{
}

/// Once the client cancelled the forward of (address, port), it refuses a
/// forwarded-tcpip channel for that address and port.
pub proof fn law_cancelled_forward_refused(
    forwards: Set<(Seq<char>, u32)>,
    x11: bool,
    address: String,
    port: u32,
)
    ensures
        !spec_accepts(
            forwards.remove((address@, port)),
            x11,
            ServerChannelOpen::ForwardedTcpip { connected_address: address, connected_port: port },
        ),
{
}

/// Cancelling a forward undoes granting it: the active forwards are as they
/// were before the forward was granted, where it was not active then.
pub proof fn law_cancel_undoes_grant(forwards: Set<(Seq<char>, u32)>, address: Seq<char>, port: u32)
    requires
        !forwards.contains((address, port)),
    ensures
        forwards.insert((address, port)).remove((address, port)) == forwards,
{
    assert(forwards.insert((address, port)).remove((address, port)) =~= forwards);
}

/// Granting or cancelling one forward does not change whether the client
/// accepts a channel for another address or port.
pub proof fn law_other_forwards_unchanged(
    forwards: Set<(Seq<char>, u32)>,
    x11: bool,
    address: Seq<char>,
    port: u32,
    other_address: String,
    other_port: u32,
)
    requires
        (other_address@, other_port) != (address, port),
    ensures
        ({
            let req = ServerChannelOpen::ForwardedTcpip {
                connected_address: other_address,
                connected_port: other_port,
            };
            &&& spec_accepts(forwards.insert((address, port)), x11, req) == spec_accepts(
                forwards,
                x11,
                req,
            )
            &&& spec_accepts(forwards.remove((address, port)), x11, req) == spec_accepts(
                forwards,
                x11,
                req,
            )
        }),
{
}

/// A request for a given port reports port 0, and the client records the
/// port on which the server listens: the one asked for, or, for port 0, the
/// one that the server bound and reported.
pub proof fn law_reported_and_listening_port(requested_port: u32, bound_port: u32)
    ensures
        requested_port != 0 ==> spec_reported_port(requested_port, bound_port) == 0,
        spec_listening_port(requested_port, spec_reported_port(requested_port, bound_port)) == (
        if requested_port == 0 {
            bound_port
        } else {
            requested_port
        }),
{
}

} // verus!


//! The life of a tunnel at the proxy: from the client's first frame, over the routes
//! that it registers, to the end.
use vstd::prelude::*;

use crate::message::{service_views, ProxyMsg, ProxyMsgView, ServiceDef, ServiceView};
use crate::registry::{
    admission, registered, subdomains, texts, unregistered, Admission, AdmissionView, FirstFrame,
    FirstFrameView, Registry, RegistryView,
};

verus! {

/// How far a tunnel has come.
#[derive(Debug)]
pub enum Phase {
    /// The client's first frame is awaited.
    Opening,
    /// The client was let in; the reply that says so is on its way.
    Admitted(Vec<ServiceDef>),
    /// The tunnel is registered for these subdomains.
    Open(Vec<String>),
    /// The tunnel is gone, or never came to be.
    Closed,
}

/// What a [`Phase`] says.
pub enum PhaseView {
    Opening,
    Admitted(Seq<ServiceView>),
    Open(Seq<Seq<char>>),
    Closed,
}

impl View for Phase {
    type V = PhaseView;

    open spec fn view(&self) -> PhaseView {
        match *self {
            Phase::Opening => PhaseView::Opening,
            Phase::Admitted(services) => PhaseView::Admitted(service_views(services@)),
            Phase::Open(names) => PhaseView::Open(texts(names@)),
            Phase::Closed => PhaseView::Closed,
        }
    }
}

/// Where a tunnel stands after the client's first frame.
pub open spec fn phase_after_first(
    phase: PhaseView,
    secret: Seq<char>,
    frame: FirstFrameView,
) -> PhaseView {
    match phase {
        PhaseView::Opening => match admission(secret, frame) {
            AdmissionView::Accepted { services, reply } => PhaseView::Admitted(services),
            _ => PhaseView::Closed,
        },
        _ => phase,
    }
}

/// What the proxy replies to the client's first frame, if anything.
pub open spec fn first_reply(
    phase: PhaseView,
    secret: Seq<char>,
    frame: FirstFrameView,
) -> Option<ProxyMsgView> {
    match phase {
        PhaseView::Opening => match admission(secret, frame) {
            AdmissionView::Accepted { services, reply } => Some(reply),
            AdmissionView::Rejected { reply } => Some(reply),
            AdmissionView::Ignored => None,
        },
        _ => None,
    }
}

/// Where a tunnel stands after its reply was sent, or could not be.
pub open spec fn phase_after_reply(phase: PhaseView, sent: bool) -> PhaseView {
    match phase {
        PhaseView::Admitted(services) => if sent {
            PhaseView::Open(subdomains(services))
        } else {
            PhaseView::Closed
        },
        _ => phase,
    }
}

/// The routes after the reply of a tunnel was sent, or could not be: its subdomains
/// lead to it from the moment that the client has been told so.
pub open spec fn routes_after_reply(
    tunnels: Map<Seq<char>, u64>,
    phase: PhaseView,
    tunnel: u64,
    sent: bool,
) -> Map<Seq<char>, u64> {
    match phase {
        PhaseView::Admitted(services) => if sent {
            registered(tunnels, subdomains(services), tunnel)
        } else {
            tunnels
        },
        _ => tunnels,
    }
}

/// The routes after the end of a tunnel.
pub open spec fn routes_after_end(tunnels: Map<Seq<char>, u64>, phase: PhaseView) -> Map<
    Seq<char>,
    u64,
> {
    match phase {
        PhaseView::Open(names) => unregistered(tunnels, names),
        _ => tunnels,
    }
}

/// A tunnel at the proxy.
pub struct TunnelSession {
    tunnel: u64,
    phase: Phase,
}

/// What a [`TunnelSession`] says: the handle of the tunnel, and how far it has come.
pub struct TunnelSessionView {
    pub tunnel: u64,
    pub phase: PhaseView,
}

impl View for TunnelSession {
    type V = TunnelSessionView;

    closed spec fn view(&self) -> TunnelSessionView {
        TunnelSessionView { tunnel: self.tunnel, phase: self.phase@ }
    }
}

impl TunnelSession {
    /// A tunnel to which a client has just connected.
    pub fn new(tunnel: u64) -> (res: Self)
        ensures
            res@ == (TunnelSessionView { tunnel, phase: PhaseView::Opening }),
    {
        TunnelSession { tunnel, phase: Phase::Opening }
    }

    /// Takes the client's first frame. Returns the reply to send, if there is one.
    pub fn on_first_frame(&mut self, registry: &Registry, frame: FirstFrame) -> (reply: Option<
        ProxyMsg,
    >)
        ensures
            match reply {
                Some(reply) => first_reply(old(self)@.phase, registry@.token, frame@) == Some(
                    reply@,
                ),
                None => first_reply(old(self)@.phase, registry@.token, frame@) is None,
            },
            final(self)@ == (TunnelSessionView {
                tunnel: old(self)@.tunnel,
                phase: phase_after_first(old(self)@.phase, registry@.token, frame@),
            }),
    {
        match &self.phase {
            Phase::Opening => {},
            _ => {
                return None;
            },
        }
        match registry.on_first_frame(frame) {
            Admission::Accepted { services, reply } => {
                self.phase = Phase::Admitted(services);
                Some(reply)
            },
            Admission::Rejected { reply } => {
                self.phase = Phase::Closed;
                Some(reply)
            },
            Admission::Ignored => {
                self.phase = Phase::Closed;
                None
            },
        }
    }

    /// Takes note that the reply was sent, or could not be, and registers the
    /// services of a client that was let in and knows it. Returns whether the tunnel
    /// is open.
    pub fn on_reply(&mut self, registry: &mut Registry, sent: bool) -> (open: bool)
        ensures
            open == (final(self)@.phase is Open),
            final(self)@ == (TunnelSessionView {
                tunnel: old(self)@.tunnel,
                phase: phase_after_reply(old(self)@.phase, sent),
            }),
            final(registry)@ == (RegistryView {
                tunnels: routes_after_reply(
                    old(registry)@.tunnels,
                    old(self)@.phase,
                    old(self)@.tunnel,
                    sent,
                ),
                token: old(registry)@.token,
            }),
    {
        let (phase, open) = match &self.phase {
            Phase::Admitted(services) => if sent {
                (Phase::Open(registry.register(services, self.tunnel)), true)
            } else {
                (Phase::Closed, false)
            },
            Phase::Open(_) => {
                return true;
            },
            _ => {
                return false;
            },
        };
        self.phase = phase;
        open
    }

    /// Ends the tunnel, and gives up its routes if it has any.
    pub fn end(&mut self, registry: &mut Registry)
        ensures
            final(self)@ == (TunnelSessionView {
                tunnel: old(self)@.tunnel,
                phase: PhaseView::Closed,
            }),
            final(registry)@ == (RegistryView {
                tunnels: routes_after_end(old(registry)@.tunnels, old(self)@.phase),
                token: old(registry)@.token,
            }),
    {
        match &self.phase {
            Phase::Open(names) => registry.unregister(names),
            _ => {},
        }
        self.phase = Phase::Closed;
    }
}

} // verus!

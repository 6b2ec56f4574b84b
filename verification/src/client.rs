//! The client's end of a tunnel: registering services, and turning what the proxy
//! sends into calls of local services and their answers.
use vstd::hash_map::StringHashMap;
use vstd::prelude::*;
use vstd::utf8::encode_utf8;

use crate::backoff::TunnelEnd;
use crate::config::{Settings, SettingsView};
use crate::message::{
    copy_services, header_texts, service_views, ClientMsg, ClientMsgView, ProxyMsg,
    ProxyMsgView, ServiceDef, ServiceView,
};
use crate::text::{decimal, port_text};
use crate::web::{
    carried_headers, carry_headers, end_to_end, forwarded_headers, forwarded_method, opt_bytes,
    raw_headers, sent_method,
};

verus! {

/// Why there is no tunnel after the handshake.
#[derive(Debug)]
pub enum HandshakeError {
    /// The proxy rejected the registration.
    Rejected { reason: String },
    /// The proxy sent a text that does not answer a registration.
    Unexpected,
    /// The proxy did not send a text.
    Bad,
}

/// What a [`HandshakeError`] says.
pub enum HandshakeErrorView {
    Rejected { reason: Seq<char> },
    Unexpected,
    Bad,
}

impl View for HandshakeError {
    type V = HandshakeErrorView;

    open spec fn view(&self) -> HandshakeErrorView {
        match *self {
            HandshakeError::Rejected { reason } => HandshakeErrorView::Rejected {
                reason: reason@,
            },
            HandshakeError::Unexpected => HandshakeErrorView::Unexpected,
            HandshakeError::Bad => HandshakeErrorView::Bad,
        }
    }
}

/// What is wrong with the first frame that a client receives, if anything is: it
/// must be the answer to the registration, and say that all is well.
pub open spec fn handshake_problem(frame: ProxyFrameView) -> Option<HandshakeErrorView> {
    match frame {
        ProxyFrameView::Message(ProxyMsgView::Registered { ok, error }) => if ok {
            None
        } else {
            Some(
                HandshakeErrorView::Rejected {
                    reason: match error {
                        Some(reason) => reason,
                        None => Seq::empty(),
                    },
                },
            )
        },
        ProxyFrameView::Message(_) => Some(HandshakeErrorView::Unexpected),
        ProxyFrameView::Malformed => Some(HandshakeErrorView::Unexpected),
        _ => Some(HandshakeErrorView::Bad),
    }
}

/// Reads the first frame that a client receives.
pub fn handshake(frame: ProxyFrame) -> (res: Result<(), HandshakeError>)
    ensures
        match res {
            Ok(_) => handshake_problem(frame@) is None,
            Err(problem) => handshake_problem(frame@) == Some(problem@),
        },
{
    match frame {
        ProxyFrame::Message(ProxyMsg::Registered { ok, error }) => {
            if ok {
                Ok(())
            } else {
                let reason = match error {
                    Some(reason) => reason,
                    None => String::new(),
                };
                Err(HandshakeError::Rejected { reason })
            }
        },
        ProxyFrame::Message(_) => Err(HandshakeError::Unexpected),
        ProxyFrame::Malformed => Err(HandshakeError::Unexpected),
        _ => Err(HandshakeError::Bad),
    }
}

/// The message for a failed handshake; `received` describes what the proxy sent.
pub open spec fn handshake_message(problem: HandshakeErrorView, received: Seq<char>) -> Seq<char> {
    match problem {
        HandshakeErrorView::Rejected { reason } => "registration rejected: "@ + reason,
        HandshakeErrorView::Unexpected => "unexpected response: "@ + received,
        HandshakeErrorView::Bad => "bad handshake: "@ + received,
    }
}

impl HandshakeError {
    /// The message for a failed handshake; `received` describes what the proxy sent.
    pub fn message(&self, received: &str) -> (res: String)
        ensures
            res@ == handshake_message(self@, received@),
    {
        match self {
            HandshakeError::Rejected { reason } => "registration rejected: ".to_owned().concat(
                reason.as_str(),
            ),
            HandshakeError::Unexpected => "unexpected response: ".to_owned().concat(received),
            HandshakeError::Bad => "bad handshake: ".to_owned().concat(received),
        }
    }
}

/// The local port of each subdomain; where one is named twice, the later port.
pub open spec fn port_map(services: Seq<ServiceView>) -> Map<Seq<char>, u16>
    decreases services.len(),
{
    if services.len() == 0 {
        Map::empty()
    } else {
        port_map(services.drop_last()).insert(services.last().subdomain, services.last().port)
    }
}

/// A request to a local service.
#[derive(Debug)]
pub struct LocalRequest {
    /// The request that the answer is to name.
    pub request_id: String,
    pub method: String,
    pub url: String,
    pub headers: Vec<(String, String)>,
    pub body: Vec<u8>,
}

/// What a [`LocalRequest`] says.
pub struct LocalRequestView {
    pub request_id: Seq<char>,
    pub method: Seq<char>,
    pub url: Seq<char>,
    pub headers: Seq<(Seq<char>, Seq<char>)>,
    pub body: Seq<u8>,
}

impl View for LocalRequest {
    type V = LocalRequestView;

    open spec fn view(&self) -> LocalRequestView {
        LocalRequestView {
            request_id: self.request_id@,
            method: self.method@,
            url: self.url@,
            headers: header_texts(self.headers@),
            body: self.body@,
        }
    }
}

/// What a client receives.
#[derive(Debug)]
pub enum ProxyFrame {
    /// A message.
    Message(ProxyMsg),
    /// A text that is no message.
    Malformed,
    /// A WebSocket ping.
    Ping(Vec<u8>),
    /// The proxy closes the tunnel.
    Close,
    /// Another frame.
    Other,
    /// The connection broke.
    Failed,
    /// The connection has ended.
    Ended,
}

/// What a [`ProxyFrame`] says.
pub enum ProxyFrameView {
    Message(ProxyMsgView),
    Malformed,
    Ping(Seq<u8>),
    Close,
    Other,
    Failed,
    Ended,
}

impl View for ProxyFrame {
    type V = ProxyFrameView;

    open spec fn view(&self) -> ProxyFrameView {
        match *self {
            ProxyFrame::Message(message) => ProxyFrameView::Message(message@),
            ProxyFrame::Malformed => ProxyFrameView::Malformed,
            ProxyFrame::Ping(data) => ProxyFrameView::Ping(data@),
            ProxyFrame::Close => ProxyFrameView::Close,
            ProxyFrame::Other => ProxyFrameView::Other,
            ProxyFrame::Failed => ProxyFrameView::Failed,
            ProxyFrame::Ended => ProxyFrameView::Ended,
        }
    }
}

/// What a client does about a frame.
#[derive(Debug)]
pub enum ClientAction {
    /// The services are registered: go on to the next frame.
    Opened,
    /// There is no tunnel: leave.
    Refused(HandshakeError),
    /// Call a local service, and send the answer when it is there.
    Forward(LocalRequest),
    /// Send a message.
    Send(ClientMsg),
    /// Send a WebSocket pong.
    PongFrame(Vec<u8>),
    /// Go on to the next frame.
    Ignore,
    /// Leave the tunnel.
    Stop(TunnelEnd),
}

/// What a [`ClientAction`] says.
pub enum ClientActionView {
    Opened,
    Refused(HandshakeErrorView),
    Forward(LocalRequestView),
    Send(ClientMsgView),
    PongFrame(Seq<u8>),
    Ignore,
    Stop(TunnelEnd),
}

impl View for ClientAction {
    type V = ClientActionView;

    open spec fn view(&self) -> ClientActionView {
        match *self {
            ClientAction::Opened => ClientActionView::Opened,
            ClientAction::Refused(problem) => ClientActionView::Refused(problem@),
            ClientAction::Forward(request) => ClientActionView::Forward(request@),
            ClientAction::Send(message) => ClientActionView::Send(message@),
            ClientAction::PongFrame(data) => ClientActionView::PongFrame(data@),
            ClientAction::Ignore => ClientActionView::Ignore,
            ClientAction::Stop(end) => ClientActionView::Stop(end),
        }
    }
}

/// The URL at which a local service is called.
pub open spec fn local_url(bind: Seq<char>, port: u16, uri: Seq<char>) -> Seq<char> {
    "http://"@ + bind + ":"@ + decimal(port as nat) + uri
}

/// The answer to a request for a service that the client does not have.
pub open spec fn unknown_service(request_id: Seq<char>) -> ClientMsgView {
    ClientMsgView::HttpResponse {
        request_id,
        status: 502,
        headers: seq![],
        body: encode_utf8("unknown service"@),
    }
}

/// What a client knows: whether its services are registered, the port of each of
/// them, and the address at which they are called.
pub struct SessionView {
    pub registered: bool,
    pub ports: Map<Seq<char>, u16>,
    pub bind: Seq<char>,
}

/// What a client does about a request.
pub open spec fn request_action(
    session: SessionView,
    request_id: Seq<char>,
    subdomain: Seq<char>,
    method: Seq<char>,
    uri: Seq<char>,
    headers: Seq<(Seq<char>, Seq<char>)>,
    body: Seq<u8>,
) -> ClientActionView {
    if session.ports.contains_key(subdomain) {
        ClientActionView::Forward(
            LocalRequestView {
                request_id,
                method: sent_method(method),
                url: local_url(session.bind, session.ports[subdomain], uri),
                headers: headers.filter(end_to_end()),
                body,
            },
        )
    } else {
        ClientActionView::Send(unknown_service(request_id))
    }
}

/// What a client whose services are registered does about a frame.
pub open spec fn open_action(session: SessionView, frame: ProxyFrameView) -> ClientActionView {
    match frame {
        ProxyFrameView::Message(message) => match message {
            ProxyMsgView::HttpRequest { request_id, subdomain, method, uri, headers, body } => {
                request_action(session, request_id, subdomain, method, uri, headers, body)
            },
            ProxyMsgView::Ping => ClientActionView::Send(ClientMsgView::Pong),
            ProxyMsgView::Registered { ok, error } => ClientActionView::Ignore,
        },
        ProxyFrameView::Malformed => ClientActionView::Ignore,
        ProxyFrameView::Ping(data) => ClientActionView::PongFrame(data),
        ProxyFrameView::Close => ClientActionView::Stop(TunnelEnd::Closed),
        ProxyFrameView::Other => ClientActionView::Ignore,
        ProxyFrameView::Failed => ClientActionView::Stop(TunnelEnd::Failed),
        ProxyFrameView::Ended => ClientActionView::Stop(TunnelEnd::Closed),
    }
}

/// What a client does about a frame: the first one tells whether there is a tunnel,
/// and those that follow come through it.
pub open spec fn client_action(session: SessionView, frame: ProxyFrameView) -> ClientActionView {
    if session.registered {
        open_action(session, frame)
    } else {
        match handshake_problem(frame) {
            None => ClientActionView::Opened,
            Some(problem) => ClientActionView::Refused(problem),
        }
    }
}

/// What a client knows after a frame.
pub open spec fn client_next(session: SessionView, frame: ProxyFrameView) -> SessionView {
    SessionView {
        registered: session.registered || handshake_problem(frame) is None,
        ports: session.ports,
        bind: session.bind,
    }
}

/// A client that has not registered its services yet.
pub open spec fn client_start(settings: SettingsView) -> SessionView {
    SessionView {
        registered: false,
        ports: port_map(settings.services),
        bind: settings.bind,
    }
}

/// The message with which a client of these settings begins.
pub open spec fn registration(settings: SettingsView) -> ClientMsgView {
    ClientMsgView::Register { token: settings.token, services: settings.services }
}

/// The local port of each subdomain.
fn ports_of(services: &Vec<ServiceDef>) -> (res: StringHashMap<u16>)
    ensures
        res@ == port_map(service_views(services@)),
{
    let ghost views = service_views(services@);
    let mut res: StringHashMap<u16> = StringHashMap::new();
    assert(views.take(0) =~= seq![]);
    for i in 0..services.len()
        invariant
            views == service_views(services@),
            res@ == port_map(views.take(i as int)),
    {
        res.insert(services[i].subdomain.clone(), services[i].port);
        proof {
            let next = views.take(i + 1);
            assert(next.drop_last() =~= views.take(i as int));
            assert(next.last() == views[i as int]);
        }
    }
    assert(views.take(services@.len() as int) =~= views);
    res
}

/// A client and its tunnel.
pub struct Session {
    registered: bool,
    ports: StringHashMap<u16>,
    bind: String,
}

impl View for Session {
    type V = SessionView;

    closed spec fn view(&self) -> SessionView {
        SessionView { registered: self.registered, ports: self.ports@, bind: self.bind@ }
    }
}

impl Session {
    /// A client with these settings that has connected to the proxy, and the message
    /// with which it begins.
    pub fn start(settings: &Settings) -> (res: (Self, ClientMsg))
        ensures
            res.0@ == client_start(settings@),
            res.1@ == registration(settings@),
            res.1@ == (ClientMsgView::Register {
                token: settings@.token,
                services: settings@.services,
            }),
    {
        let session = Session {
            registered: false,
            ports: ports_of(&settings.services),
            bind: settings.bind.clone(),
        };
        let message = ClientMsg::Register {
            token: settings.token.clone(),
            services: copy_services(&settings.services),
        };
        (session, message)
    }

    /// What to do about a frame.
    pub fn on_frame(&mut self, frame: ProxyFrame) -> (res: ClientAction)
        ensures
            res@ == client_action(old(self)@, frame@),
            final(self)@ == client_next(old(self)@, frame@),
    {
        if !self.registered {
            return match handshake(frame) {
                Ok(_) => {
                    self.registered = true;
                    ClientAction::Opened
                },
                Err(problem) => ClientAction::Refused(problem),
            };
        }
        match frame {
            ProxyFrame::Message(message) => match message {
                ProxyMsg::HttpRequest { request_id, subdomain, method, uri, headers, body } => {
                    self.on_request(request_id, subdomain, method, uri, headers, body)
                },
                ProxyMsg::Ping => ClientAction::Send(ClientMsg::Pong),
                ProxyMsg::Registered { ok, error } => ClientAction::Ignore,
            },
            ProxyFrame::Malformed => ClientAction::Ignore,
            ProxyFrame::Ping(data) => ClientAction::PongFrame(data),
            ProxyFrame::Close => ClientAction::Stop(TunnelEnd::Closed),
            ProxyFrame::Other => ClientAction::Ignore,
            ProxyFrame::Failed => ClientAction::Stop(TunnelEnd::Failed),
            ProxyFrame::Ended => ClientAction::Stop(TunnelEnd::Closed),
        }
    }

    fn on_request(
        &self,
        request_id: String,
        subdomain: String,
        method: String,
        uri: String,
        headers: Vec<(String, String)>,
        body: Vec<u8>,
    ) -> (res: ClientAction)
        ensures
            res@ == request_action(
                self@,
                request_id@,
                subdomain@,
                method@,
                uri@,
                header_texts(headers@),
                body@,
            ),
    {
        match self.ports.get(subdomain.as_str()) {
            Some(port) => {
                let url = "http://".to_owned().concat(self.bind.as_str()).concat(":").concat(
                    port_text(*port).as_str(),
                ).concat(uri.as_str());
                ClientAction::Forward(
                    LocalRequest {
                        request_id,
                        method: forwarded_method(method.as_str()),
                        url,
                        headers: forwarded_headers(&headers),
                        body,
                    },
                )
            },
            None => {
                let headers: Vec<(String, String)> = Vec::new();
                assert(header_texts(headers@) =~= seq![]);
                ClientAction::Send(
                    ClientMsg::HttpResponse {
                        request_id,
                        status: 502,
                        headers,
                        body: "unknown service".as_bytes_vec(),
                    },
                )
            },
        }
    }
}

/// What came of a call of a local service.
#[derive(Debug)]
pub enum LocalOutcome {
    /// The service answered. The body is missing where it could not be read.
    Response { status: u16, headers: Vec<(String, Vec<u8>)>, body: Option<Vec<u8>> },
    /// There was no answer.
    Failed { error: String },
}

/// What a [`LocalOutcome`] says.
pub enum LocalOutcomeView {
    Response { status: u16, headers: Seq<(Seq<char>, Seq<u8>)>, body: Option<Seq<u8>> },
    Failed { error: Seq<char> },
}

impl View for LocalOutcome {
    type V = LocalOutcomeView;

    open spec fn view(&self) -> LocalOutcomeView {
        match *self {
            LocalOutcome::Response { status, headers, body } => LocalOutcomeView::Response {
                status,
                headers: raw_headers(headers@),
                body: opt_bytes(body),
            },
            LocalOutcome::Failed { error } => LocalOutcomeView::Failed { error: error@ },
        }
    }
}

/// The client's answer to a request.
pub open spec fn answer_message(request_id: Seq<char>, outcome: LocalOutcomeView) -> ClientMsgView {
    match outcome {
        LocalOutcomeView::Response { status, headers, body } => ClientMsgView::HttpResponse {
            request_id,
            status,
            headers: carried_headers(headers),
            body: match body {
                Some(body) => body,
                None => Seq::empty(),
            },
        },
        LocalOutcomeView::Failed { error } => ClientMsgView::HttpResponse {
            request_id,
            status: 502,
            headers: seq![],
            body: encode_utf8("upstream error: "@ + error),
        },
    }
}

/// The client's answer to a request.
pub fn answer(request_id: String, outcome: LocalOutcome) -> (res: ClientMsg)
    ensures
        res@ == answer_message(request_id@, outcome@),
{
    match outcome {
        LocalOutcome::Response { status, headers, body } => {
            let body = match body {
                Some(body) => body,
                None => Vec::new(),
            };
            ClientMsg::HttpResponse {
                request_id,
                status,
                headers: carry_headers(&headers),
                body,
            }
        },
        LocalOutcome::Failed { error } => {
            let headers: Vec<(String, String)> = Vec::new();
            assert(header_texts(headers@) =~= seq![]);
            let text = "upstream error: ".to_owned().concat(error.as_str());
            ClientMsg::HttpResponse {
                request_id,
                status: 502,
                headers,
                body: text.as_str().as_bytes_vec(),
            }
        },
    }
}

} // verus!

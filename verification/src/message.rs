//! The messages that the two ends of a tunnel exchange.
use vstd::prelude::*;

verus! {

/// A service the client wants to expose through the tunnel.
#[derive(Debug)]
pub struct ServiceDef {
    /// Subdomain prefix (e.g. "shivvr" for shivvr.nuts.services).
    pub subdomain: String,
    /// Local port on the client machine.
    pub port: u16,
    /// Optional description.
    pub description: Option<String>,
}

/// What a [`ServiceDef`] says.
pub struct ServiceView {
    pub subdomain: Seq<char>,
    pub port: u16,
    pub description: Option<Seq<char>>,
}

/// Messages sent from the client to the proxy.
#[derive(Debug)]
pub enum ClientMsg {
    /// First message after the WebSocket connects. Registers routes.
    Register { token: String, services: Vec<ServiceDef> },
    /// Response to a proxied HTTP request.
    HttpResponse {
        request_id: String,
        status: u16,
        headers: Vec<(String, String)>,
        body: Vec<u8>,
    },
    /// Keepalive reply.
    Pong,
}

/// What a [`ClientMsg`] says.
pub enum ClientMsgView {
    Register { token: Seq<char>, services: Seq<ServiceView> },
    HttpResponse {
        request_id: Seq<char>,
        status: u16,
        headers: Seq<(Seq<char>, Seq<char>)>,
        body: Seq<u8>,
    },
    Pong,
}

/// Messages sent from the proxy to the client.
#[derive(Debug)]
pub enum ProxyMsg {
    /// Acknowledge or reject a registration.
    Registered { ok: bool, error: Option<String> },
    /// Forward an incoming HTTP request to the client's local service.
    HttpRequest {
        request_id: String,
        subdomain: String,
        method: String,
        uri: String,
        headers: Vec<(String, String)>,
        body: Vec<u8>,
    },
    /// Keepalive.
    Ping,
}

/// What a [`ProxyMsg`] says.
pub enum ProxyMsgView {
    Registered { ok: bool, error: Option<Seq<char>> },
    HttpRequest {
        request_id: Seq<char>,
        subdomain: Seq<char>,
        method: Seq<char>,
        uri: Seq<char>,
        headers: Seq<(Seq<char>, Seq<char>)>,
        body: Seq<u8>,
    },
    Ping,
}

/// The text that an optional string holds.
pub open spec fn opt_text(text: Option<String>) -> Option<Seq<char>> {
    match text {
        Some(t) => Some(t@),
        None => None,
    }
}

/// The text that an optional string slice holds.
pub open spec fn opt_str(text: Option<&str>) -> Option<Seq<char>> {
    match text {
        Some(t) => Some(t@),
        None => None,
    }
}

/// The names and values of a list of headers, in order.
pub open spec fn header_texts(headers: Seq<(String, String)>) -> Seq<(Seq<char>, Seq<char>)> {
    Seq::new(headers.len(), |i: int| (headers[i].0@, headers[i].1@))
}

/// What a list of services says, in order.
pub open spec fn service_views(services: Seq<ServiceDef>) -> Seq<ServiceView> {
    Seq::new(services.len(), |i: int| services[i]@)
}

impl View for ServiceDef {
    type V = ServiceView;

    open spec fn view(&self) -> ServiceView {
        ServiceView {
            subdomain: self.subdomain@,
            port: self.port,
            description: opt_text(self.description),
        }
    }
}

impl View for ClientMsg {
    type V = ClientMsgView;

    open spec fn view(&self) -> ClientMsgView {
        match *self {
            ClientMsg::Register { token, services } => ClientMsgView::Register {
                token: token@,
                services: service_views(services@),
            },
            ClientMsg::HttpResponse { request_id, status, headers, body } => {
                ClientMsgView::HttpResponse {
                    request_id: request_id@,
                    status,
                    headers: header_texts(headers@),
                    body: body@,
                }
            },
            ClientMsg::Pong => ClientMsgView::Pong,
        }
    }
}

impl View for ProxyMsg {
    type V = ProxyMsgView;

    open spec fn view(&self) -> ProxyMsgView {
        match *self {
            ProxyMsg::Registered { ok, error } => ProxyMsgView::Registered {
                ok,
                error: opt_text(error),
            },
            ProxyMsg::HttpRequest { request_id, subdomain, method, uri, headers, body } => {
                ProxyMsgView::HttpRequest {
                    request_id: request_id@,
                    subdomain: subdomain@,
                    method: method@,
                    uri: uri@,
                    headers: header_texts(headers@),
                    body: body@,
                }
            },
            ProxyMsg::Ping => ProxyMsgView::Ping,
        }
    }
}

impl Clone for ServiceDef {
    fn clone(&self) -> (res: Self)
        ensures
            res@ == self@,
    {
        let description = match &self.description {
            Some(text) => Some(text.clone()),
            None => None,
        };
        ServiceDef { subdomain: self.subdomain.clone(), port: self.port, description }
    }
}

/// A copy of a list of services.
pub(crate) fn copy_services(services: &Vec<ServiceDef>) -> (res: Vec<ServiceDef>)
    ensures
        service_views(res@) == service_views(services@),
{
    let mut res: Vec<ServiceDef> = Vec::new();
    for i in 0..services.len()
        invariant
            res@.len() == i,
            forall|j: int| 0 <= j < i ==> (#[trigger] res@[j])@ == services@[j]@,
    {
        res.push(services[i].clone());
    }
    assert(service_views(res@) =~= service_views(services@));
    res
}

} // verus!

//! The proxy's registry: who may register, which tunnel serves which subdomain, and
//! where a request goes.
use vstd::prelude::*;

use dashmap::DashMap;

use crate::message::{
    opt_str, service_views, ClientMsg, ClientMsgView, ProxyMsg, ProxyMsgView, ServiceDef,
    ServiceView,
};
use crate::reply::{Reply, ReplyView};
use crate::table::{
    entries, entry, no_entries, table_get, table_insert, table_new, table_remove,
};
use crate::text::{split_at_first, split_once};

verus! {

/// The first frame that a client sends.
#[derive(Debug)]
pub enum FirstFrame {
    /// A message.
    Message(ClientMsg),
    /// A text that is no message.
    Malformed,
    /// No text: another frame, a broken connection, or nothing at all.
    NoText,
}

/// What a [`FirstFrame`] says.
pub enum FirstFrameView {
    Message(ClientMsgView),
    Malformed,
    NoText,
}

impl View for FirstFrame {
    type V = FirstFrameView;

    open spec fn view(&self) -> FirstFrameView {
        match *self {
            FirstFrame::Message(message) => FirstFrameView::Message(message@),
            FirstFrame::Malformed => FirstFrameView::Malformed,
            FirstFrame::NoText => FirstFrameView::NoText,
        }
    }
}

/// What the proxy does about a client's first frame.
#[derive(Debug)]
pub enum Admission {
    /// Send the reply; once it is sent, register the services.
    Accepted { services: Vec<ServiceDef>, reply: ProxyMsg },
    /// Send the reply and hang up.
    Rejected { reply: ProxyMsg },
    /// Hang up.
    Ignored,
}

/// What an [`Admission`] says.
pub enum AdmissionView {
    Accepted { services: Seq<ServiceView>, reply: ProxyMsgView },
    Rejected { reply: ProxyMsgView },
    Ignored,
}

impl View for Admission {
    type V = AdmissionView;

    open spec fn view(&self) -> AdmissionView {
        match *self {
            Admission::Accepted { services, reply } => AdmissionView::Accepted {
                services: service_views(services@),
                reply: reply@,
            },
            Admission::Rejected { reply } => AdmissionView::Rejected { reply: reply@ },
            Admission::Ignored => AdmissionView::Ignored,
        }
    }
}

/// Whether a proxy with this secret lets a client with this token register: it must
/// be the secret, unless there is none.
pub open spec fn token_accepted(secret: Seq<char>, token: Seq<char>) -> bool {
    secret.len() == 0 || token == secret
}

/// What a proxy with this secret does about a client's first frame.
pub open spec fn admission(secret: Seq<char>, frame: FirstFrameView) -> AdmissionView {
    match frame {
        FirstFrameView::Message(ClientMsgView::Register { token, services }) => {
            if token_accepted(secret, token) {
                AdmissionView::Accepted {
                    services,
                    reply: ProxyMsgView::Registered { ok: true, error: None },
                }
            } else {
                AdmissionView::Rejected {
                    reply: ProxyMsgView::Registered { ok: false, error: Some("bad token"@) },
                }
            }
        },
        _ => AdmissionView::Ignored,
    }
}

/// The subdomains of a list of services, in order.
pub open spec fn subdomains(services: Seq<ServiceView>) -> Seq<Seq<char>> {
    Seq::new(services.len(), |i: int| services[i].subdomain)
}

/// The texts of a list of strings, in order.
pub open spec fn texts(list: Seq<String>) -> Seq<Seq<char>> {
    Seq::new(list.len(), |i: int| list[i]@)
}

/// The routes after a tunnel has registered some subdomains: those lead to it, and
/// every other one leads where it did.
pub open spec fn registered(
    tunnels: Map<Seq<char>, u64>,
    names: Seq<Seq<char>>,
    tunnel: u64,
) -> Map<Seq<char>, u64> {
    tunnels.union_prefer_right(
        Map::new(|name: Seq<char>| names.contains(name), |name: Seq<char>| tunnel),
    )
}

/// The routes after some subdomains have been given up: those lead nowhere, and
/// every other one leads where it did.
pub open spec fn unregistered(tunnels: Map<Seq<char>, u64>, names: Seq<Seq<char>>) -> Map<
    Seq<char>,
    u64,
> {
    tunnels.remove_keys(names.to_set())
}

/// The host that a request is for: the one in its `Host` header, or the one in its
/// URI where the header has none.
pub open spec fn host_of(header: Option<Seq<char>>, uri: Option<Seq<char>>) -> Option<Seq<char>> {
    match header {
        Some(host) => Some(host),
        None => uri,
    }
}

/// The subdomain that a `Host` header names: what stands before its first dot.
pub open spec fn host_subdomain(host: Option<Seq<char>>) -> Option<Seq<char>> {
    match host {
        Some(host) => match split_at_first(host, '.') {
            Some((label, _)) if label.len() > 0 => Some(label),
            _ => None,
        },
        None => None,
    }
}

/// The service that a path names, and the path within that service: the first
/// segment, and what follows it.
pub open spec fn path_service(path: Seq<char>) -> Option<(Seq<char>, Seq<char>)> {
    if path.len() > 0 && path[0] == '/' {
        let rest = path.skip(1);
        match split_at_first(rest, '/') {
            Some((service, remainder)) => Some((service, seq!['/'] + remainder)),
            None => if rest.len() > 0 {
                Some((rest, seq!['/']))
            } else {
                None
            },
        }
    } else {
        None
    }
}

/// A path and the query string that belongs to it.
pub open spec fn with_query(path: Seq<char>, query: Option<Seq<char>>) -> Seq<char> {
    match query {
        Some(query) => path + "?"@ + query,
        None => path,
    }
}

/// Where a request goes: the tunnel, the service at its other end, and the URI to
/// ask that service for.
#[derive(Debug)]
pub struct Route {
    pub tunnel: u64,
    pub service: String,
    pub uri: String,
}

/// What a [`Route`] says.
pub struct RouteView {
    pub tunnel: u64,
    pub service: Seq<char>,
    pub uri: Seq<char>,
}

impl View for Route {
    type V = RouteView;

    open spec fn view(&self) -> RouteView {
        RouteView { tunnel: self.tunnel, service: self.service@, uri: self.uri@ }
    }
}

/// Where a request goes by the subdomain of its host, if a tunnel serves that.
pub open spec fn host_route(
    tunnels: Map<Seq<char>, u64>,
    host: Option<Seq<char>>,
    path: Seq<char>,
    query: Option<Seq<char>>,
) -> Option<RouteView> {
    match host_subdomain(host) {
        Some(service) => match entry(tunnels, service) {
            Some(tunnel) => Some(RouteView { tunnel, service, uri: with_query(path, query) }),
            None => None,
        },
        None => None,
    }
}

/// Where a request goes by the first segment of its path, or what it is answered
/// where that leads nowhere.
pub open spec fn path_route(
    tunnels: Map<Seq<char>, u64>,
    path: Seq<char>,
    query: Option<Seq<char>>,
) -> Result<RouteView, ReplyView> {
    match path_service(path) {
        Some((service, remainder)) => match entry(tunnels, service) {
            Some(tunnel) => Ok(RouteView { tunnel, service, uri: with_query(remainder, query) }),
            None => Err(
                ReplyView::Text { status: 502, text: "no tunnel for '"@ + service + "'"@ },
            ),
        },
        None => Err(
            ReplyView::Text {
                status: 400,
                text: "missing service name in path — use /service/..."@,
            },
        ),
    }
}

/// Where a request goes, or what it is answered: by the subdomain of its host if a
/// tunnel serves that, by the first segment of its path otherwise.
pub open spec fn route_of(
    tunnels: Map<Seq<char>, u64>,
    host: Option<Seq<char>>,
    path: Seq<char>,
    query: Option<Seq<char>>,
) -> Result<RouteView, ReplyView> {
    match host_route(tunnels, host, path, query) {
        Some(route) => Ok(route),
        None => path_route(tunnels, path, query),
    }
}

/// The outcome of looking for a route.
pub open spec fn routed(res: Result<Route, Reply>) -> Result<RouteView, ReplyView> {
    match res {
        Ok(route) => Ok(route@),
        Err(reply) => Err(reply@),
    }
}

/// The proxy's registry.
pub struct Registry {
    tunnels: DashMap<String, u64>,
    token: String,
}

/// What a [`Registry`] holds: the tunnel of each subdomain, and the secret.
pub struct RegistryView {
    pub tunnels: Map<Seq<char>, u64>,
    pub token: Seq<char>,
}

impl View for Registry {
    type V = RegistryView;

    closed spec fn view(&self) -> RegistryView {
        RegistryView { tunnels: entries(self.tunnels), token: self.token@ }
    }
}

/// The first `i + 1` names are the first `i` and the next one.
proof fn one_more_name(names: Seq<Seq<char>>, i: int)
    requires
        0 <= i < names.len(),
    ensures
        forall|n: Seq<char>|
            names.take(i + 1).contains(n) <==> names.take(i).contains(n) || n == names[i],
        names.take(i + 1).to_set() == names.take(i).to_set().insert(names[i]),
{
    let now = names.take(i);
    let next = names.take(i + 1);
    assert forall|n: Seq<char>| next.contains(n) <==> now.contains(n) || n == names[i] by {
        if now.contains(n) {
            assert(next[now.index_of(n)] == n);
        }
        if n == names[i] {
            assert(next[i] == n);
        }
        if next.contains(n) && next.index_of(n) < i {
            assert(now[next.index_of(n)] == n);
        }
    }
    assert(next.to_set() =~= now.to_set().insert(names[i]));
}

/// The subdomains of a list of services.
fn subdomains_of(services: &Vec<ServiceDef>) -> (res: Vec<String>)
    ensures
        texts(res@) == subdomains(service_views(services@)),
{
    let mut res: Vec<String> = Vec::new();
    for i in 0..services.len()
        invariant
            res@.len() == i,
            forall|j: int| 0 <= j < i ==> (#[trigger] res@[j])@ == services@[j].subdomain@,
    {
        res.push(services[i].subdomain.clone());
    }
    assert(texts(res@) =~= subdomains(service_views(services@)));
    res
}

/// Puts a path and its query string together.
fn join_query(path: String, query: Option<&str>) -> (res: String)
    ensures
        res@ == with_query(path@, opt_str(query)),
{
    match query {
        Some(query) => path.concat("?").concat(query),
        None => path,
    }
}

/// Finds the service that a path names, and the path within that service.
pub fn split_path(path: &str) -> (res: Option<(String, String)>)
    ensures
        match res {
            Some((service, remainder)) => path_service(path@) == Some((service@, remainder@)),
            None => path_service(path@) is None,
        },
{
    let n: usize = path.unicode_len();
    if n == 0 || path.get_char(0) != '/' {
        return None;
    }
    let rest = path.substring_char(1, n);
    assert(rest@ =~= path@.skip(1));
    proof {
        reveal_strlit("/");
        assert("/"@ =~= seq!['/']);
    }
    match split_once(rest, '/') {
        Some((service, remainder)) => {
            Some((service.to_owned(), "/".to_owned().concat(remainder)))
        },
        None => {
            if rest.is_empty() {
                None
            } else {
                Some((rest.to_owned(), "/".to_owned()))
            }
        },
    }
}

/// The host that a request is for, given what its `Host` header and its URI say.
pub fn request_host<'a>(header: Option<&'a str>, uri: Option<&'a str>) -> (res: Option<&'a str>)
    ensures
        opt_str(res) == host_of(opt_str(header), opt_str(uri)),
{
    match header {
        Some(host) => Some(host),
        None => uri,
    }
}

/// Finds the subdomain that a `Host` header names.
pub fn subdomain_of_host<'a>(host: Option<&'a str>) -> (res: Option<&'a str>)
    ensures
        match res {
            Some(label) => host_subdomain(opt_str(host)) == Some(label@),
            None => host_subdomain(opt_str(host)) is None,
        },
{
    match host {
        Some(host) => match split_once(host, '.') {
            Some((label, _)) => if label.is_empty() {
                None
            } else {
                Some(label)
            },
            None => None,
        },
        None => None,
    }
}

impl Registry {
    /// A registry without routes; an empty token lets everybody register.
    pub fn new(token: String) -> (res: Self)
        ensures
            res@ == (RegistryView { tunnels: no_entries(), token: token@ }),
    {
        Registry { tunnels: table_new(), token }
    }

    /// What to do about a client's first frame.
    pub fn on_first_frame(&self, frame: FirstFrame) -> (res: Admission)
        ensures
            res@ == admission(self@.token, frame@),
    {
        match frame {
            FirstFrame::Message(ClientMsg::Register { token, services }) => {
                if !self.token.as_str().is_empty() && token != self.token {
                    let reply = ProxyMsg::Registered {
                        ok: false,
                        error: Some("bad token".to_owned()),
                    };
                    Admission::Rejected { reply }
                } else {
                    let reply = ProxyMsg::Registered { ok: true, error: None };
                    Admission::Accepted { services, reply }
                }
            },
            _ => Admission::Ignored,
        }
    }

    /// Routes the subdomains of a tunnel's services to it. Returns the subdomains.
    pub fn register(&mut self, services: &Vec<ServiceDef>, tunnel: u64) -> (names: Vec<String>)
        ensures
            texts(names@) == subdomains(service_views(services@)),
            final(self)@ == (RegistryView {
                tunnels: registered(old(self)@.tunnels, texts(names@), tunnel),
                token: old(self)@.token,
            }),
    {
        let names = subdomains_of(services);
        let ghost before = self@.tunnels;
        let ghost all = texts(names@);
        assert(registered(before, all.take(0), tunnel) =~= before);
        for i in 0..names.len()
            invariant
                all == texts(names@),
                self@.token == old(self)@.token,
                self@.tunnels == registered(before, all.take(i as int), tunnel),
        {
            table_insert(&mut self.tunnels, names[i].clone(), tunnel);
            proof {
                let next = all.take(i + 1);
                let name = all[i as int];
                one_more_name(all, i as int);
                assert(registered(before, next, tunnel) =~= registered(
                    before,
                    all.take(i as int),
                    tunnel,
                ).insert(name, tunnel));
            }
        }
        assert(all.take(names@.len() as int) =~= all);
        names
    }

    /// Gives up the routes of a tunnel that is gone.
    pub fn unregister(&mut self, names: &Vec<String>)
        ensures
            final(self)@ == (RegistryView {
                tunnels: unregistered(old(self)@.tunnels, texts(names@)),
                token: old(self)@.token,
            }),
    {
        let ghost before = self@.tunnels;
        let ghost all = texts(names@);
        assert(unregistered(before, all.take(0)) =~= before);
        for i in 0..names.len()
            invariant
                all == texts(names@),
                self@.token == old(self)@.token,
                self@.tunnels == unregistered(before, all.take(i as int)),
        {
            table_remove(&mut self.tunnels, names[i].as_str());
            proof {
                let next = all.take(i + 1);
                let name = all[i as int];
                one_more_name(all, i as int);
                assert(unregistered(before, next) =~= unregistered(
                    before,
                    all.take(i as int),
                ).remove(name));
            }
        }
        assert(all.take(names@.len() as int) =~= all);
    }

    /// The tunnel that serves a subdomain.
    pub fn lookup(&self, name: &str) -> (res: Option<u64>)
        ensures
            res == entry(self@.tunnels, name@),
    {
        table_get(&self.tunnels, name)
    }

    /// Where a request goes, or what it is answered.
    pub fn route(&self, host: Option<&str>, path: &str, query: Option<&str>) -> (res: Result<
        Route,
        Reply,
    >)
        ensures
            routed(res) == route_of(
                self@.tunnels,
                opt_str(host),
                path@,
                opt_str(query),
            ),
    {
        if let Some(service) = subdomain_of_host(host) {
            if let Some(tunnel) = self.lookup(service) {
                let uri = join_query(path.to_owned(), query);
                return Ok(Route { tunnel, service: service.to_owned(), uri });
            }
        }
        match split_path(path) {
            Some((service, remainder)) => match self.lookup(service.as_str()) {
                Some(tunnel) => {
                    let uri = join_query(remainder, query);
                    Ok(Route { tunnel, service, uri })
                },
                None => {
                    let text = "no tunnel for '".to_owned().concat(service.as_str()).concat("'");
                    Err(Reply::Text { status: 502, text })
                },
            },
            None => Err(
                Reply::Text {
                    status: 400,
                    text: "missing service name in path — use /service/...".to_owned(),
                },
            ),
        }
    }
}

} // verus!

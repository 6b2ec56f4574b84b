//! Where requests go, and who may register: what the proxy decides, told by what a
//! request or a registration looks like.
use vstd::prelude::*;

use crate::message::{ClientMsgView, ProxyMsgView, ServiceView};
use crate::reading::{split_text_is_put_together, text_is_split_at_the_first_separator};
use crate::registry::{
    admission, host_of, host_subdomain, path_service, registered, route_of, subdomains,
    unregistered, AdmissionView, FirstFrameView, RouteView,
};
use crate::reply::ReplyView;
use crate::session::{
    first_reply, phase_after_first, phase_after_reply, routes_after_end, routes_after_reply,
    PhaseView,
};
use crate::table::{entry, no_entries};

verus! {

/// A tunnel serves the subdomain in front of this host.
pub open spec fn serves_host(tunnels: Map<Seq<char>, u64>, host: Option<Seq<char>>) -> bool {
    exists|label: Seq<char>, domain: Seq<char>|
        {
            &&& host == Some(#[trigger] (label + seq!['.'] + domain))
            &&& label.len() > 0
            &&& !label.contains('.')
            &&& tunnels.contains_key(label)
        }
}

/// A host that no tunnel serves has no part in where a request goes.
proof fn unserved_host_is_passed_over(
    tunnels: Map<Seq<char>, u64>,
    host: Option<Seq<char>>,
    path: Seq<char>,
    query: Option<Seq<char>>,
)
    requires
        !serves_host(tunnels, host),
    ensures
        route_of(tunnels, host, path, query) == route_of(tunnels, None, path, query),
{
    if let Some(text) = host {
        split_text_is_put_together(text, '.');
    }
}

/// A request whose path is a slash, a service that a tunnel serves, a slash and a
/// rest goes to that tunnel and that service, which is asked for a slash and the
/// rest, with the query behind a question mark where there is one. This is so
/// unless a tunnel serves the request's host.
pub proof fn path_leads_to_the_service(
    tunnels: Map<Seq<char>, u64>,
    host: Option<Seq<char>>,
    service: Seq<char>,
    rest: Seq<char>,
    query: Seq<char>,
)
    requires
        !serves_host(tunnels, host),
        !service.contains('/'),
        tunnels.contains_key(service),
    ensures
        ({
            let path = seq!['/'] + service + seq!['/'] + rest;
            let plain = route_of(tunnels, host, path, None);
            let with = route_of(tunnels, host, path, Some(query));
            &&& plain is Ok && with is Ok
            &&& plain->Ok_0.tunnel == tunnels[service] && with->Ok_0.tunnel == tunnels[service]
            &&& plain->Ok_0.service == service && with->Ok_0.service == service
            &&& plain->Ok_0.uri == seq!['/'] + rest
            &&& with->Ok_0.uri == seq!['/'] + rest + seq!['?'] + query
        }),
{
    let path = seq!['/'] + service + seq!['/'] + rest;
    unserved_host_is_passed_over(tunnels, host, path, None);
    unserved_host_is_passed_over(tunnels, host, path, Some(query));
    text_is_split_at_the_first_separator(service, '/', rest);
    assert(path.skip(1) =~= service + seq!['/'] + rest);
    reveal_strlit("?");
    assert("?"@ =~= seq!['?']);
}

/// A request whose path is a slash and a service that a tunnel serves, and nothing
/// more, goes to that tunnel and that service, which is asked for its root.
pub proof fn path_leads_to_the_root(
    tunnels: Map<Seq<char>, u64>,
    host: Option<Seq<char>>,
    service: Seq<char>,
    query: Seq<char>,
)
    requires
        !serves_host(tunnels, host),
        service.len() > 0,
        !service.contains('/'),
        tunnels.contains_key(service),
    ensures
        ({
            let plain = route_of(tunnels, host, seq!['/'] + service, None);
            let with = route_of(tunnels, host, seq!['/'] + service, Some(query));
            &&& plain is Ok && with is Ok
            &&& plain->Ok_0.tunnel == tunnels[service] && with->Ok_0.tunnel == tunnels[service]
            &&& plain->Ok_0.service == service && with->Ok_0.service == service
            &&& plain->Ok_0.uri == seq!['/']
            &&& with->Ok_0.uri == seq!['/'] + seq!['?'] + query
        }),
{
    let path = seq!['/'] + service;
    unserved_host_is_passed_over(tunnels, host, path, None);
    unserved_host_is_passed_over(tunnels, host, path, Some(query));
    text_is_split_at_the_first_separator(service, '/', Seq::empty());
    assert(path.skip(1) =~= service);
    reveal_strlit("?");
    assert("?"@ =~= seq!['?']);
}

/// A request to a host whose subdomain a tunnel serves goes to that tunnel and that
/// service, which is asked for the path as it is, with the query behind a question
/// mark where there is one.
pub proof fn host_leads_to_the_service(
    tunnels: Map<Seq<char>, u64>,
    label: Seq<char>,
    domain: Seq<char>,
    path: Seq<char>,
    query: Seq<char>,
)
    requires
        label.len() > 0,
        !label.contains('.'),
        tunnels.contains_key(label),
    ensures
        ({
            let host = Some(label + seq!['.'] + domain);
            let plain = route_of(tunnels, host, path, None);
            let with = route_of(tunnels, host, path, Some(query));
            &&& plain is Ok && with is Ok
            &&& plain->Ok_0.tunnel == tunnels[label] && with->Ok_0.tunnel == tunnels[label]
            &&& plain->Ok_0.service == label && with->Ok_0.service == label
            &&& plain->Ok_0.uri == path
            &&& with->Ok_0.uri == path + seq!['?'] + query
        }),
{
    text_is_split_at_the_first_separator(label, '.', domain);
    reveal_strlit("?");
    assert("?"@ =~= seq!['?']);
}

/// A request that names a service without a tunnel is answered 502 (bad gateway),
/// with the name of the service. One whose path names no service is answered 400
/// (bad request).
pub proof fn requests_may_lead_nowhere(
    tunnels: Map<Seq<char>, u64>,
    host: Option<Seq<char>>,
    service: Seq<char>,
    rest: Seq<char>,
    path: Seq<char>,
    query: Option<Seq<char>>,
)
    requires
        !serves_host(tunnels, host),
        !service.contains('/'),
    ensures
        ({
            let unknown = Err::<RouteView, ReplyView>(
                ReplyView::Text { status: 502, text: "no tunnel for '"@ + service + "'"@ },
            );
            &&& !tunnels.contains_key(service) ==> route_of(
                tunnels,
                host,
                seq!['/'] + service + seq!['/'] + rest,
                query,
            ) == unknown
            &&& !tunnels.contains_key(service) && service.len() > 0 ==> route_of(
                tunnels,
                host,
                seq!['/'] + service,
                query,
            ) == unknown
        }),
        path.len() == 0 || path[0] != '/' || path.len() == 1 ==> route_of(
            tunnels,
            host,
            path,
            query,
        ) == Err::<RouteView, ReplyView>(
            ReplyView::Text {
                status: 400,
                text: "missing service name in path — use /service/..."@,
            },
        ),
{
    let long = seq!['/'] + service + seq!['/'] + rest;
    let short = seq!['/'] + service;
    unserved_host_is_passed_over(tunnels, host, long, query);
    unserved_host_is_passed_over(tunnels, host, short, query);
    unserved_host_is_passed_over(tunnels, host, path, query);
    text_is_split_at_the_first_separator(service, '/', rest);
    assert(long.skip(1) =~= service + seq!['/'] + rest);
    assert(short.skip(1) =~= service);
    if path.len() == 1 {
        text_is_split_at_the_first_separator(path.skip(1), '/', rest);
    }
}

/// A path names the service between its first two slashes, or all that follows the
/// first one, and names none where nothing does.
pub proof fn path_names_a_service(service: Seq<char>, rest: Seq<char>, path: Seq<char>)
    requires
        !service.contains('/'),
        path.len() == 0 || path[0] != '/' || path.len() == 1,
    ensures
        path_service(seq!['/'] + service + seq!['/'] + rest) == Some((service, seq!['/'] + rest)),
        service.len() > 0 ==> path_service(seq!['/'] + service) == Some((service, seq!['/'])),
        path_service(path) is None,
{
    text_is_split_at_the_first_separator(service, '/', rest);
    assert((seq!['/'] + service + seq!['/'] + rest).skip(1) =~= service + seq!['/'] + rest);
    assert((seq!['/'] + service).skip(1) =~= service);
    if path.len() == 1 {
        text_is_split_at_the_first_separator(path.skip(1), '/', rest);
    }
}

/// A host names the subdomain in front of its first dot, and none where nothing
/// stands there or it has no dot. The `Host` header goes before the URI.
pub proof fn host_names_a_subdomain(label: Seq<char>, domain: Seq<char>, uri: Option<Seq<char>>)
    requires
        !label.contains('.'),
    ensures
        ({
            let host = label + seq!['.'] + domain;
            &&& label.len() > 0 ==> host_subdomain(Some(host)) == Some(label)
            &&& label.len() == 0 ==> host_subdomain(Some(host)) is None
            &&& host_subdomain(Some(label)) is None
            &&& host_subdomain(None) is None
            &&& host_of(Some(host), uri) == Some(host)
            &&& host_of(Some(label), uri) == Some(label)
            &&& host_of(None, uri) == uri
        }),
{
    text_is_split_at_the_first_separator(label, '.', domain);
}

/// What is filed is found, under its own name and no other. In a new table nothing
/// is.
pub proof fn what_is_filed_is_found(
    map: Map<Seq<char>, u64>,
    name: Seq<char>,
    handle: u64,
    other: Seq<char>,
)
    ensures
        entry(map.insert(name, handle), name) == Some(handle),
        entry(map.remove(name), name) is None,
        entry(no_entries(), name) is None,
        other != name ==> entry(map.insert(name, handle), other) == entry(map, other),
        other != name ==> entry(map.remove(name), other) == entry(map, other),
{
}

/// A registration leads the subdomain of each service to the tunnel, and its end
/// leads it nowhere. A subdomain that no service has is led as before, both times.
pub proof fn services_are_routed(
    tunnels: Map<Seq<char>, u64>,
    services: Seq<ServiceView>,
    tunnel: u64,
    i: int,
    other: Seq<char>,
)
    requires
        forall|j: int| 0 <= j < services.len() ==> (#[trigger] services[j]).subdomain != other,
    ensures
        ({
            let names = subdomains(services);
            let during = registered(tunnels, names, tunnel);
            let after = unregistered(during, names);
            &&& names.len() == services.len()
            &&& 0 <= i < services.len() ==> {
                &&& names[i] == services[i].subdomain
                &&& during.contains_key(services[i].subdomain)
                &&& during[services[i].subdomain] == tunnel
                &&& !after.contains_key(services[i].subdomain)
            }
            &&& during.contains_key(other) == tunnels.contains_key(other)
            &&& after.contains_key(other) == tunnels.contains_key(other)
            &&& tunnels.contains_key(other) ==> during[other] == tunnels[other]
            &&& tunnels.contains_key(other) ==> after[other] == tunnels[other]
        }),
{
    let names = subdomains(services);
    if 0 <= i < services.len() {
        assert(names[i] == services[i].subdomain);
        assert(names.contains(services[i].subdomain));
        assert(names.to_set().contains(services[i].subdomain));
    }
    assert(!names.contains(other));
}

/// A client that registers with the right token, or with any token where there is no
/// secret, is told that all is well, and its services are taken as they are. One with
/// a wrong token is told so. Whatever else comes first is not answered.
pub proof fn registration_is_answered(
    secret: Seq<char>,
    token: Seq<char>,
    services: Seq<ServiceView>,
    message: ClientMsgView,
)
    requires
        !(message is Register),
    ensures
        ({
            let frame = FirstFrameView::Message(ClientMsgView::Register { token, services });
            let right = secret == Seq::<char>::empty() || token == secret;
            &&& right ==> {
                &&& admission(secret, frame) is Accepted
                &&& admission(secret, frame)->services == services
                &&& phase_after_first(PhaseView::Opening, secret, frame) == PhaseView::Admitted(
                    services,
                )
                &&& first_reply(PhaseView::Opening, secret, frame) == Some(
                    ProxyMsgView::Registered { ok: true, error: None },
                )
                &&& admission(secret, frame)->Accepted_reply == (ProxyMsgView::Registered {
                    ok: true,
                    error: None,
                })
            }
            &&& !right ==> {
                &&& admission(secret, frame) is Rejected
                &&& phase_after_first(PhaseView::Opening, secret, frame) == PhaseView::Closed
                &&& first_reply(PhaseView::Opening, secret, frame) == Some(
                    ProxyMsgView::Registered { ok: false, error: Some("bad token"@) },
                )
                &&& admission(secret, frame)->Rejected_reply == (ProxyMsgView::Registered {
                    ok: false,
                    error: Some("bad token"@),
                })
            }
        }),
        forall|frame: FirstFrameView|
            frame == FirstFrameView::Message(message) || frame is Malformed || frame is NoText ==> {
                &&& #[trigger] admission(secret, frame) is Ignored
                &&& first_reply(PhaseView::Opening, secret, frame) is None
                &&& phase_after_first(PhaseView::Opening, secret, frame) == PhaseView::Closed
            },
{
    if secret.len() == 0 {
        assert(secret =~= Seq::<char>::empty());
    }
}

/// A tunnel is open, and its subdomains lead to it, from the moment that the client
/// has been told that it was let in. Where that could not be sent there is no tunnel
/// and no route.
pub proof fn tunnel_opens_with_its_reply(
    tunnels: Map<Seq<char>, u64>,
    services: Seq<ServiceView>,
    tunnel: u64,
    i: int,
)
    ensures
        ({
            let admitted = PhaseView::Admitted(services);
            let open = phase_after_reply(admitted, true);
            let routes = routes_after_reply(tunnels, admitted, tunnel, true);
            &&& open is Open
            &&& open->Open_0.len() == services.len()
            &&& 0 <= i < services.len() ==> {
                &&& open->Open_0[i] == services[i].subdomain
                &&& routes.contains_key(services[i].subdomain)
                &&& routes[services[i].subdomain] == tunnel
                &&& !routes_after_end(routes, open).contains_key(services[i].subdomain)
            }
            &&& phase_after_reply(admitted, false) == PhaseView::Closed
            &&& routes_after_reply(tunnels, admitted, tunnel, false) == tunnels
        }),
{
    let names = subdomains(services);
    if 0 <= i < services.len() {
        assert(names[i] == services[i].subdomain);
        assert(names.contains(services[i].subdomain));
        assert(names.to_set().contains(services[i].subdomain));
    }
}

/// What a tunnel does not await changes nothing: a first frame once it is past its
/// opening, a reply where none is due, an end where nothing is open.
pub proof fn what_is_not_due_changes_nothing(
    tunnels: Map<Seq<char>, u64>,
    phase: PhaseView,
    secret: Seq<char>,
    frame: FirstFrameView,
    tunnel: u64,
    sent: bool,
)
    ensures
        !(phase is Opening) ==> phase_after_first(phase, secret, frame) == phase,
        !(phase is Opening) ==> first_reply(phase, secret, frame) is None,
        !(phase is Admitted) ==> phase_after_reply(phase, sent) == phase,
        !(phase is Admitted) ==> routes_after_reply(tunnels, phase, tunnel, sent) == tunnels,
        !(phase is Open) ==> routes_after_end(tunnels, phase) == tunnels,
{
}

/// The end of an open tunnel gives up exactly the subdomains that it was open for.
pub proof fn open_tunnel_gives_up_its_routes(
    tunnels: Map<Seq<char>, u64>,
    names: Seq<Seq<char>>,
    name: Seq<char>,
)
    ensures
        ({
            let after = routes_after_end(tunnels, PhaseView::Open(names));
            &&& names.contains(name) ==> !after.contains_key(name)
            &&& !names.contains(name) ==> after.contains_key(name) == tunnels.contains_key(name)
            &&& !names.contains(name) && tunnels.contains_key(name) ==> after[name]
                == tunnels[name]
        }),
{
}

} // verus!

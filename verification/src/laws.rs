//! What holds of the tunnel as a whole.
use vstd::prelude::*;
use vstd::utf8::encode_utf8;

use crate::client::{
    answer_message, client_action, client_next, handshake_problem, local_url, port_map,
    ClientActionView, HandshakeErrorView, LocalOutcomeView, LocalRequestView, ProxyFrameView,
    SessionView,
};
use crate::message::{ClientMsgView, ProxyMsgView, ServiceView};
use crate::registry::{
    admission, path_service, registered, route_of, subdomains, unregistered, with_query,
    AdmissionView, FirstFrameView, RouteView,
};
use crate::reply::ReplyView;
use crate::session::{
    phase_after_first, phase_after_reply, routes_after_end, routes_after_reply, PhaseView,
};
use crate::table::{entry, no_entries};
use crate::text::{first_at, first_at_is};
use crate::tunnel::{
    reply_to, request_message, tunnel_action, waiting_after, waiting_at_end, written,
    ClientFrameView, RequestOutcomeView, TunnelActionView, WriterEventView,
};
use crate::web::{carried_headers, end_to_end, relayed_headers, sent_method, sent_status};

verus! {

/// A tunnel that registers is the one that serves each of its subdomains, whoever
/// served them before, and the routes of all other subdomains stay.
pub proof fn registration_routes_to_the_tunnel(
    tunnels: Map<Seq<char>, u64>,
    services: Seq<ServiceView>,
    tunnel: u64,
    name: Seq<char>,
)
    ensures
        subdomains(services).contains(name) ==> entry(
            registered(tunnels, subdomains(services), tunnel),
            name,
        ) == Some(tunnel),
        !subdomains(services).contains(name) ==> entry(
            registered(tunnels, subdomains(services), tunnel),
            name,
        ) == entry(tunnels, name),
{
}

/// A tunnel that is gone serves none of its subdomains any more, and the routes of
/// all other subdomains stay.
pub proof fn disconnection_removes_the_routes(
    tunnels: Map<Seq<char>, u64>,
    names: Seq<Seq<char>>,
    name: Seq<char>,
)
    ensures
        names.contains(name) ==> entry(unregistered(tunnels, names), name) is None,
        !names.contains(name) ==> entry(unregistered(tunnels, names), name) == entry(tunnels, name),
{
}

/// A tunnel that comes and goes leaves the routes as they were, if nobody served its
/// subdomains before.
pub proof fn registration_is_undone(
    tunnels: Map<Seq<char>, u64>,
    names: Seq<Seq<char>>,
    tunnel: u64,
)
    requires
        forall|name: Seq<char>| #[trigger]
            names.contains(name) ==> !tunnels.contains_key(name),
    ensures
        unregistered(registered(tunnels, names, tunnel), names) == tunnels,
{
    assert(unregistered(registered(tunnels, names, tunnel), names) =~= tunnels);
}

/// Registering the same subdomains once more leads them all to the later tunnel.
pub proof fn later_registration_wins(
    tunnels: Map<Seq<char>, u64>,
    names: Seq<Seq<char>>,
    earlier: u64,
    later: u64,
)
    ensures
        registered(registered(tunnels, names, earlier), names, later) == registered(
            tunnels,
            names,
            later,
        ),
{
    assert(registered(registered(tunnels, names, earlier), names, later) =~= registered(
        tunnels,
        names,
        later,
    ));
}

/// The routes after a tunnel's whole life are the routes before it without its
/// subdomains, if the client was let in and told so. In every other case they are
/// the routes before it: a client that is turned away changes nothing.
pub proof fn tunnel_life(
    tunnels: Map<Seq<char>, u64>,
    secret: Seq<char>,
    tunnel: u64,
    frame: FirstFrameView,
    sent: bool,
)
    ensures
        ({
            let admitted = phase_after_first(PhaseView::Opening, secret, frame);
            let during = routes_after_reply(tunnels, admitted, tunnel, sent);
            let after = routes_after_end(during, phase_after_reply(admitted, sent));
            match admission(secret, frame) {
                AdmissionView::Accepted { services, reply } if sent => {
                    &&& during == registered(tunnels, subdomains(services), tunnel)
                    &&& after == unregistered(tunnels, subdomains(services))
                },
                _ => during == tunnels && after == tunnels,
            }
        }),
{
    if let AdmissionView::Accepted { services, reply } = admission(secret, frame) {
        let names = subdomains(services);
        assert(unregistered(registered(tunnels, names, tunnel), names) =~= unregistered(
            tunnels,
            names,
        ));
    }
}

/// Every route leads to a tunnel that is open and has registered the route's
/// subdomain. `phases` tells how far each tunnel has come, under its handle.
pub open spec fn no_stale_route(
    tunnels: Map<Seq<char>, u64>,
    phases: Map<u64, PhaseView>,
) -> bool {
    forall|name: Seq<char>| #[trigger]
        tunnels.contains_key(name) ==> {
            &&& phases.contains_key(tunnels[name])
            &&& match phases[tunnels[name]] {
                PhaseView::Open(names) => names.contains(name),
                _ => false,
            }
        }
}

/// No route ever leads to a tunnel that is gone: there is none at the start, and
/// whatever a tunnel does, there is none afterwards. (A tunnel whose subdomain
/// another one has registered meanwhile may be open without a route.)
pub proof fn no_route_is_stale(
    tunnels: Map<Seq<char>, u64>,
    phases: Map<u64, PhaseView>,
    tunnel: u64,
    secret: Seq<char>,
    frame: FirstFrameView,
    sent: bool,
)
    requires
        no_stale_route(tunnels, phases),
    ensures
        no_stale_route(no_entries(), Map::empty()),
        !phases.contains_key(tunnel) ==> no_stale_route(
            tunnels,
            phases.insert(tunnel, PhaseView::Opening),
        ),
        phases.contains_key(tunnel) ==> {
            let phase = phases[tunnel];
            &&& no_stale_route(
                tunnels,
                phases.insert(tunnel, phase_after_first(phase, secret, frame)),
            )
            &&& no_stale_route(
                routes_after_reply(tunnels, phase, tunnel, sent),
                phases.insert(tunnel, phase_after_reply(phase, sent)),
            )
            &&& no_stale_route(
                routes_after_end(tunnels, phase),
                phases.insert(tunnel, PhaseView::Closed),
            )
        },
{
}

/// With a secret, a client registers exactly if its token is the secret; without
/// one, every client does. The two ends agree on the outcome: a client that is let
/// in finds nothing wrong with the reply, and one that is not finds the reason.
pub proof fn token_decides(secret: Seq<char>, token: Seq<char>, services: Seq<ServiceView>)
    ensures
        ({
            let frame = FirstFrameView::Message(ClientMsgView::Register { token, services });
            match admission(secret, frame) {
                AdmissionView::Accepted { services: let_in, reply } => {
                    &&& secret.len() == 0 || token == secret
                    &&& let_in == services
                    &&& handshake_problem(ProxyFrameView::Message(reply)) is None
                },
                AdmissionView::Rejected { reply } => {
                    &&& secret.len() > 0 && token != secret
                    &&& handshake_problem(ProxyFrameView::Message(reply)) == Some(
                        HandshakeErrorView::Rejected { reason: "bad token"@ },
                    )
                },
                AdmissionView::Ignored => false,
            }
        }),
{
}

/// Nothing but a registration opens a tunnel.
pub proof fn only_registration_opens_a_tunnel(secret: Seq<char>, frame: FirstFrameView)
    requires
        !(frame matches FirstFrameView::Message(ClientMsgView::Register { .. })),
    ensures
        admission(secret, frame) == AdmissionView::Ignored,
{
}

/// A client calls no service and sends nothing before the proxy has accepted its
/// registration, and from then on it is registered for good.
pub proof fn registration_comes_first(session: SessionView, frame: ProxyFrameView)
    ensures
        !session.registered ==> client_action(session, frame) is Opened || client_action(
            session,
            frame,
        ) is Refused,
        !session.registered ==> (client_action(session, frame) is Opened <==> client_next(
            session,
            frame,
        ).registered),
        session.registered ==> client_next(session, frame) == session,
{
}

/// A port map has the port of every service that is the last of its subdomain.
pub proof fn last_port_wins(services: Seq<ServiceView>, i: int)
    requires
        0 <= i < services.len(),
        forall|j: int|
            i < j < services.len() ==> (#[trigger] services[j]).subdomain != services[i].subdomain,
    ensures
        port_map(services).contains_key(services[i].subdomain),
        port_map(services)[services[i].subdomain] == services[i].port,
    decreases services.len(),
{
    let init = services.drop_last();
    if i < init.len() {
        assert(services.last() == services[services.len() - 1]);
        assert forall|j: int| i < j < init.len() implies (#[trigger] init[j]).subdomain
            != init[i].subdomain by {
            assert(init[j] == services[j]);
        }
        last_port_wins(init, i);
    }
}

/// A client has a port for the subdomains that it registers, and for no others.
pub proof fn ports_are_the_subdomains(services: Seq<ServiceView>, name: Seq<char>)
    ensures
        port_map(services).contains_key(name) <==> subdomains(services).contains(name),
    decreases services.len(),
{
    let names = subdomains(services);
    if services.len() > 0 {
        let init = services.drop_last();
        ports_are_the_subdomains(init, name);
        let k = services.len() - 1;
        assert(names[k] == services.last().subdomain);
        if subdomains(init).contains(name) {
            assert(names[subdomains(init).index_of(name)] == name);
        }
        if names.contains(name) && names.index_of(name) < k {
            assert(subdomains(init)[names.index_of(name)] == name);
        }
    }
}

/// A request that comes through a tunnel for one of the subdomains that the client
/// registered is forwarded to the local service of that subdomain: the URI, the
/// body and the end-to-end headers go there, and the method where it is one.
pub proof fn request_reaches_the_local_service(
    services: Seq<ServiceView>,
    i: int,
    bind: Seq<char>,
    request_id: Seq<char>,
    route: RouteView,
    method: Seq<char>,
    headers: Seq<(Seq<char>, Seq<u8>)>,
    body: Seq<u8>,
)
    requires
        0 <= i < services.len(),
        forall|j: int|
            i < j < services.len() ==> (#[trigger] services[j]).subdomain != services[i].subdomain,
        route.service == services[i].subdomain,
    ensures
        client_action(
            SessionView { registered: true, ports: port_map(services), bind },
            ProxyFrameView::Message(request_message(request_id, route, method, headers, body)),
        ) == ClientActionView::Forward(
            LocalRequestView {
                request_id,
                method: sent_method(method),
                url: local_url(bind, services[i].port, route.uri),
                headers: carried_headers(headers).filter(end_to_end()),
                body,
            },
        ),
{
    last_port_wins(services, i);
}

/// A request that is routed by what a client has registered is never one for a
/// service that the client does not know.
pub proof fn registered_services_are_known(
    services: Seq<ServiceView>,
    bind: Seq<char>,
    request_id: Seq<char>,
    route: RouteView,
    method: Seq<char>,
    headers: Seq<(Seq<char>, Seq<u8>)>,
    body: Seq<u8>,
)
    requires
        subdomains(services).contains(route.service),
    ensures
        client_action(
            SessionView { registered: true, ports: port_map(services), bind },
            ProxyFrameView::Message(request_message(request_id, route, method, headers, body)),
        ) is Forward,
{
    ports_are_the_subdomains(services, route.service);
}

/// Every request gets an answer that names it: at once where the client does not
/// have the service, and otherwise whatever comes of the local call.
pub proof fn answer_names_its_request(
    session: SessionView,
    request_id: Seq<char>,
    subdomain: Seq<char>,
    method: Seq<char>,
    uri: Seq<char>,
    headers: Seq<(Seq<char>, Seq<char>)>,
    body: Seq<u8>,
    outcome: LocalOutcomeView,
)
    requires
        session.registered,
    ensures
        ({
            let frame = ProxyFrameView::Message(
                ProxyMsgView::HttpRequest { request_id, subdomain, method, uri, headers, body },
            );
            let message = match client_action(session, frame) {
                ClientActionView::Send(message) => message,
                ClientActionView::Forward(request) => answer_message(request.request_id, outcome),
                _ => ClientMsgView::Pong,
            };
            message is HttpResponse && message->HttpResponse_request_id == request_id
        }),
{
}

/// A response is handed to the request that it names, and only to that one: it no
/// longer waits, and all others still do.
pub proof fn response_reaches_its_request(
    waiting: Map<Seq<char>, u64>,
    request_id: Seq<char>,
    waiter: u64,
    outcome: LocalOutcomeView,
)
    ensures
        ({
            let sent = waiting.insert(request_id, waiter);
            let response = answer_message(request_id, outcome);
            &&& tunnel_action(sent, ClientFrameView::Message(response))
                == TunnelActionView::Deliver { waiter, response }
            &&& waiting_after(sent, ClientFrameView::Message(response)) == waiting.remove(
                request_id,
            )
        }),
{
    let sent = waiting.insert(request_id, waiter);
    assert(sent.remove(request_id) =~= waiting.remove(request_id));
}

/// What waits for another response is not touched by a response.
pub proof fn responses_do_not_mix(
    waiting: Map<Seq<char>, u64>,
    response: ClientMsgView,
    other: Seq<char>,
)
    requires
        response is HttpResponse,
        response->HttpResponse_request_id != other,
    ensures
        entry(waiting_after(waiting, ClientFrameView::Message(response)), other) == entry(
            waiting,
            other,
        ),
{
}

/// Two requests may be on their way at once: whichever is answered first, each
/// response is handed to the request that it names.
pub proof fn responses_come_in_any_order(
    waiting: Map<Seq<char>, u64>,
    first: Seq<char>,
    first_waiter: u64,
    second: Seq<char>,
    second_waiter: u64,
    first_outcome: LocalOutcomeView,
    second_outcome: LocalOutcomeView,
)
    requires
        first != second,
    ensures
        ({
            let sent = waiting.insert(first, first_waiter).insert(second, second_waiter);
            let to_first = answer_message(first, first_outcome);
            let to_second = answer_message(second, second_outcome);
            let deliver_first = TunnelActionView::Deliver {
                waiter: first_waiter,
                response: to_first,
            };
            let deliver_second = TunnelActionView::Deliver {
                waiter: second_waiter,
                response: to_second,
            };
            &&& tunnel_action(sent, ClientFrameView::Message(to_first)) == deliver_first
            &&& tunnel_action(
                waiting_after(sent, ClientFrameView::Message(to_first)),
                ClientFrameView::Message(to_second),
            ) == deliver_second
            &&& tunnel_action(sent, ClientFrameView::Message(to_second)) == deliver_second
            &&& tunnel_action(
                waiting_after(sent, ClientFrameView::Message(to_second)),
                ClientFrameView::Message(to_first),
            ) == deliver_first
        }),
{
}

/// No request is answered twice: a second response that names it is ignored.
pub proof fn response_is_delivered_once(
    waiting: Map<Seq<char>, u64>,
    first: ClientMsgView,
    second: ClientMsgView,
)
    requires
        first is HttpResponse,
        second is HttpResponse,
        first->HttpResponse_request_id == second->HttpResponse_request_id,
    ensures
        tunnel_action(
            waiting_after(waiting, ClientFrameView::Message(first)),
            ClientFrameView::Message(second),
        ) == TunnelActionView::Ignore,
{
}

/// A response to a request that has been given up, because it was not sent or not
/// answered in time, is ignored.
pub proof fn late_response_is_ignored(
    waiting: Map<Seq<char>, u64>,
    outcome: RequestOutcomeView,
    response: ClientMsgView,
)
    requires
        outcome is NotSent || outcome is TimedOut,
        response is HttpResponse,
    ensures
        tunnel_action(
            waiting_at_end(waiting, response->HttpResponse_request_id, outcome),
            ClientFrameView::Message(response),
        ) == TunnelActionView::Ignore,
{
}

/// Only a response changes which requests wait. A keepalive, a second registration
/// and whatever else a client sends do not.
pub proof fn only_responses_are_handed_on(waiting: Map<Seq<char>, u64>, frame: ClientFrameView)
    requires
        !(frame matches ClientFrameView::Message(ClientMsgView::HttpResponse { .. })),
    ensures
        waiting_after(waiting, frame) == waiting,
        !(tunnel_action(waiting, frame) is Deliver),
{
}

/// The answer of a local service comes back to the caller: its status where that is
/// one, its body, and its headers as far as they can be carried.
pub proof fn local_answer_reaches_the_caller(
    request_id: Seq<char>,
    status: u16,
    headers: Seq<(Seq<char>, Seq<u8>)>,
    body: Seq<u8>,
)
    ensures
        reply_to(
            RequestOutcomeView::Answered(
                answer_message(
                    request_id,
                    LocalOutcomeView::Response { status, headers, body: Some(body) },
                ),
            ),
        ) == (ReplyView::Relayed {
            status: sent_status(status),
            headers: relayed_headers(carried_headers(headers)),
            body,
        }),
{
}

/// A caller learns of a local service that cannot be reached: the answer is 502 (bad
/// gateway), with the reason as its body.
pub proof fn local_failure_reaches_the_caller(request_id: Seq<char>, error: Seq<char>)
    ensures
        reply_to(
            RequestOutcomeView::Answered(
                answer_message(request_id, LocalOutcomeView::Failed { error }),
            ),
        ) == (ReplyView::Relayed {
            status: 502,
            headers: Map::empty(),
            body: encode_utf8("upstream error: "@ + error),
        }),
{
}

/// A keepalive goes to the client and back and changes nothing.
pub proof fn keepalive(session: SessionView, waiting: Map<Seq<char>, u64>)
    requires
        session.registered,
    ensures
        written(WriterEventView::Tick) == Some(ProxyMsgView::Ping),
        client_action(session, ProxyFrameView::Message(ProxyMsgView::Ping))
            == ClientActionView::Send(ClientMsgView::Pong),
        tunnel_action(waiting, ClientFrameView::Message(ClientMsgView::Pong))
            == TunnelActionView::Ignore,
        waiting_after(waiting, ClientFrameView::Message(ClientMsgView::Pong)) == waiting,
{
}

/// A request to a host whose first label is a subdomain that a tunnel serves goes
/// to that tunnel, whatever its path, and with its path unchanged.
pub proof fn host_routing(
    tunnels: Map<Seq<char>, u64>,
    subdomain: Seq<char>,
    domain: Seq<char>,
    path: Seq<char>,
    query: Option<Seq<char>>,
)
    requires
        subdomain.len() > 0,
        !subdomain.contains('.'),
        tunnels.contains_key(subdomain),
    ensures
        route_of(tunnels, Some(subdomain + seq!['.'] + domain), path, query) == Ok::<
            RouteView,
            ReplyView,
        >(
            RouteView {
                tunnel: tunnels[subdomain],
                service: subdomain,
                uri: with_query(path, query),
            },
        ),
{
    let host = subdomain + seq!['.'] + domain;
    let i = subdomain.len() as int;
    assert forall|j: int| 0 <= j < i implies host[j] != '.' by {
        assert(subdomain.contains(subdomain[j]));
    }
    first_at_is(host, '.', 0, i);
    assert(host.take(i) =~= subdomain);
}

/// A path that begins with a service and a slash names that service, and the rest
/// is the path within it.
pub proof fn path_names_the_service(service: Seq<char>, rest: Seq<char>)
    requires
        !service.contains('/'),
    ensures
        path_service(seq!['/'] + service + seq!['/'] + rest) == Some((service, seq!['/'] + rest)),
{
    let path = seq!['/'] + service + seq!['/'] + rest;
    let tail = path.skip(1);
    let i = service.len() as int;
    assert(tail =~= service + seq!['/'] + rest);
    assert forall|j: int| 0 <= j < i implies tail[j] != '/' by {
        assert(service.contains(service[j]));
    }
    first_at_is(tail, '/', 0, i);
    assert(tail.take(i) =~= service);
    assert(tail.skip(i + 1) =~= rest);
}

/// A path that is a service and nothing more names that service and its root.
pub proof fn path_names_the_root(service: Seq<char>)
    requires
        service.len() > 0,
        !service.contains('/'),
    ensures
        path_service(seq!['/'] + service) == Some((service, seq!['/'])),
{
    let path = seq!['/'] + service;
    let tail = path.skip(1);
    assert(tail =~= service);
    assert forall|j: int| 0 <= j < tail.len() implies tail[j] != '/' by {
        assert(service.contains(service[j]));
    }
    first_at_is(tail, '/', 0, tail.len() as int);
}

/// No part of a path is lost on its way to the service: the service and the path
/// within it make up the path, but for a slash at its end.
pub proof fn path_is_kept(path: Seq<char>)
    requires
        path_service(path) is Some,
    ensures
        ({
            let (service, remainder) = path_service(path)->0;
            ||| path == seq!['/'] + service + remainder
            ||| path == seq!['/'] + service && remainder == seq!['/']
        }),
{
    let rest = path.skip(1);
    let i = first_at(rest, '/', 0);
    first_at_bounds(rest, '/', 0);
    let (service, remainder) = path_service(path)->0;
    if i < rest.len() {
        assert(path =~= seq!['/'] + service + remainder);
    } else {
        assert(path =~= seq!['/'] + service);
    }
}

/// The search for a separator ends within the text, on a separator or at the end.
proof fn first_at_bounds(text: Seq<char>, sep: char, from: int)
    requires
        0 <= from <= text.len(),
    ensures
        from <= first_at(text, sep, from) <= text.len(),
        first_at(text, sep, from) < text.len() ==> text[first_at(text, sep, from)] == sep,
    decreases text.len() - from,
{
    if from < text.len() && text[from] != sep {
        first_at_bounds(text, sep, from + 1);
    }
}

/// A request is routed only to a tunnel that is registered for the service that it
/// goes to.
pub proof fn routes_are_registered(
    tunnels: Map<Seq<char>, u64>,
    host: Option<Seq<char>>,
    path: Seq<char>,
    query: Option<Seq<char>>,
)
    ensures
        route_of(tunnels, host, path, query) matches Ok(route) ==> entry(tunnels, route.service)
            == Some(route.tunnel),
{
}

} // verus!

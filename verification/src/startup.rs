//! What the two programs start with, how a tunnel is set up and set up again, and
//! the limits that they keep to.
use vstd::arithmetic::power2::pow2;
use vstd::prelude::*;

use crate::backoff::{
    backoff_after, backoff_is_exponential, backoff_next, backoff_start, close_starts_anew,
    failures, wait_after, BackoffView, TunnelEnd, MAX_DELAY,
};
use crate::client::{
    client_action, client_next, client_start, handshake_message, handshake_problem,
    registration, ClientActionView, HandshakeErrorView, ProxyFrameView, SessionView,
};
use crate::config::{
    asked_token, merged, port_setting, settings_problem, SettingsError, SettingsView, DEFAULT_PORT,
};
use crate::laws::{last_port_wins, ports_are_the_subdomains};
use crate::message::{ClientMsgView, ProxyMsgView, ServiceView};
use crate::registry::{admission, subdomains, FirstFrameView};
use crate::reply::ReplyView;
use crate::text::{decimal, port_number, port_round_trip};
use crate::tunnel::{
    body_refused, body_taken, MAX_BODY, PING_INTERVAL, QUEUE_LENGTH, REQUEST_TIMEOUT,
};
use crate::web::{HEADER_MAP_ROOM, MAX_HEADER_NAME};

verus! {

/// The services of a config file all come behind those of the command line, in
/// order and as the file has them, whether or not any were given there.
pub proof fn services_of_the_file_follow(
    settings: SettingsView,
    proxy_url: Option<Seq<char>>,
    token: Option<Seq<char>>,
    services: Seq<ServiceView>,
    g: int,
    k: int,
)
    ensures
        ({
            let all = merged(settings, proxy_url, token, services).services;
            &&& all.len() == settings.services.len() + services.len()
            &&& 0 <= g < settings.services.len() ==> {
                &&& all[g].subdomain == settings.services[g].subdomain
                &&& all[g].port == settings.services[g].port
                &&& all[g].description == settings.services[g].description
            }
            &&& 0 <= k < services.len() ==> {
                &&& all[settings.services.len() + k].subdomain == services[k].subdomain
                &&& all[settings.services.len() + k].port == services[k].port
                &&& all[settings.services.len() + k].description == services[k].description
            }
        }),
{
}

/// A proxy and a token that were not given are those of the config file, where it
/// has them; those that were given stand. The file has no say in the rest.
pub proof fn file_gives_what_is_missing(
    settings: SettingsView,
    proxy_url: Option<Seq<char>>,
    token: Option<Seq<char>>,
    services: Seq<ServiceView>,
    url: Seq<char>,
    secret: Seq<char>,
)
    ensures
        settings.proxy == Seq::<char>::empty() ==> merged(
            settings,
            Some(url),
            token,
            services,
        ).proxy == url,
        settings.token == Seq::<char>::empty() ==> merged(
            settings,
            proxy_url,
            Some(secret),
            services,
        ).token == secret,
        settings.proxy != Seq::<char>::empty() ==> merged(
            settings,
            proxy_url,
            token,
            services,
        ).proxy == settings.proxy,
        settings.token != Seq::<char>::empty() ==> merged(
            settings,
            proxy_url,
            token,
            services,
        ).token == settings.token,
        merged(settings, None, token, services).proxy == settings.proxy,
        merged(settings, proxy_url, None, services).token == settings.token,
        merged(settings, proxy_url, token, services).reconnect_delay == settings.reconnect_delay,
        merged(settings, proxy_url, token, services).bind == settings.bind,
{
    if settings.proxy.len() == 0 {
        assert(settings.proxy =~= Seq::<char>::empty());
    }
    if settings.token.len() == 0 {
        assert(settings.token =~= Seq::<char>::empty());
    }
}

/// A client starts exactly if it knows a proxy and a service; without a proxy it
/// complains of that alone. The complaint says what to do.
pub proof fn client_needs_a_proxy_and_a_service(settings: SettingsView)
    ensures
        settings_problem(settings) is None <==> settings.proxy != Seq::<char>::empty()
            && settings.services != Seq::<ServiceView>::empty(),
        settings_problem(settings) == Some(SettingsError::NoProxy) <==> settings.proxy == Seq::<
            char,
        >::empty(),
        SettingsError::NoProxy.text()
            == "no proxy URL — use --proxy, NUTS_PROXY_URL, or set proxy_url in config file"@,
        SettingsError::NoServices.text() == "no services to tunnel — use --service or --config"@,
{
    if settings.proxy.len() == 0 {
        assert(settings.proxy =~= Seq::<char>::empty());
    }
    if settings.services.len() == 0 {
        assert(settings.services =~= Seq::<ServiceView>::empty());
    }
}

/// A client whose command line names nothing can start with what the file names: a
/// proxy, and at least one service.
pub proof fn file_alone_is_enough(
    settings: SettingsView,
    url: Seq<char>,
    token: Option<Seq<char>>,
    services: Seq<ServiceView>,
)
    requires
        url.len() > 0,
        services.len() > 0,
    ensures
        settings_problem(merged(settings, Some(url), token, services)) is None,
{
}

/// The proxy listens on the port that it is told, and on 8080 where it is told none
/// or none that is a port.
pub proof fn port_is_the_one_that_was_told(port: u16, text: Seq<char>)
    ensures
        port_setting(Some(decimal(port as nat))) == port,
        port_number(text) matches Some(told) ==> port_setting(Some(text)) == told,
        port_number(text) is None ==> port_setting(Some(text)) == 8080,
        port_setting(None) == 8080,
{
    port_round_trip(port);
}

/// A client registers with the token and the services of its settings: a proxy lets
/// it in exactly if it asks for that token or for none, and takes those services.
pub proof fn client_registers_what_it_was_told(settings: SettingsView, secret: Seq<char>)
    ensures
        ({
            let told = admission(secret, FirstFrameView::Message(registration(settings)));
            &&& told is Accepted <==> secret == Seq::<char>::empty() || secret == settings.token
            &&& told is Accepted ==> told->services == settings.services
            &&& told is Accepted || told is Rejected
        }),
        registration(settings) is Register,
        registration(settings)->token == settings.token,
        registration(settings)->services == settings.services,
{
    if secret.len() == 0 {
        assert(secret =~= Seq::<char>::empty());
    }
}

/// The proxy asks for the token that it was told. Where it was told none, it lets in
/// every client, whatever its token.
pub proof fn proxy_asks_for_the_token_it_was_told(
    told: Seq<char>,
    token: Seq<char>,
    services: Seq<ServiceView>,
)
    ensures
        ({
            let frame = FirstFrameView::Message(ClientMsgView::Register { token, services });
            &&& admission(asked_token(None), frame) is Accepted
            &&& told.len() > 0 ==> (admission(asked_token(Some(told)), frame) is Accepted <==> token
                == told)
            &&& asked_token(Some(told)) == told
            &&& asked_token(None).len() == 0
        }),
{
}

/// A body of at most 32 MB is taken as it is. A longer one, and one that could not be
/// read, is answered 413 (payload too large).
pub proof fn bodies_are_taken_up_to_the_limit(body: Seq<u8>)
    ensures
        body.len() <= 32 * 1024 * 1024 ==> body_taken(Some(body)) == Ok::<Seq<u8>, ReplyView>(
            body,
        ),
        body.len() > 32 * 1024 * 1024 ==> body_taken(Some(body)) == Err::<Seq<u8>, ReplyView>(
            ReplyView::Text { status: 413, text: "body too large (32MB max)"@ },
        ),
        body_taken(None) == Err::<Seq<u8>, ReplyView>(
            ReplyView::Text { status: 413, text: "body too large (32MB max)"@ },
        ),
{
}

/// A client's tunnel is open exactly if the first frame says that the registration
/// went well. If not, the client leaves, with the reason that the proxy gave, or
/// because the frame was no answer, or no text at all.
pub proof fn first_frame_decides(reason: Seq<char>, error: Option<Seq<char>>, other: ProxyMsgView)
    requires
        !(other is Registered),
    ensures
        handshake_problem(
            ProxyFrameView::Message(ProxyMsgView::Registered { ok: true, error }),
        ) is None,
        handshake_problem(
            ProxyFrameView::Message(ProxyMsgView::Registered { ok: false, error: Some(reason) }),
        ) == Some(HandshakeErrorView::Rejected { reason }),
        handshake_problem(
            ProxyFrameView::Message(ProxyMsgView::Registered { ok: false, error: None }),
        ) == Some(HandshakeErrorView::Rejected { reason: Seq::empty() }),
        handshake_problem(ProxyFrameView::Message(other)) == Some(HandshakeErrorView::Unexpected),
        handshake_problem(ProxyFrameView::Malformed) == Some(HandshakeErrorView::Unexpected),
        forall|frame: ProxyFrameView|
            frame is Ping || frame is Close || frame is Other || frame is Failed || frame is Ended
                ==> #[trigger] handshake_problem(frame) == Some(HandshakeErrorView::Bad),
{
}

/// A failed handshake is reported with the proxy's reason, or with what was received.
pub proof fn failed_handshake_is_reported(reason: Seq<char>, received: Seq<char>)
    ensures
        handshake_message(HandshakeErrorView::Rejected { reason }, received)
            == "registration rejected: "@ + reason,
        handshake_message(HandshakeErrorView::Unexpected, received) == "unexpected response: "@
            + received,
        handshake_message(HandshakeErrorView::Bad, received) == "bad handshake: "@ + received,
{
}

/// A client knows what its settings say, before and after its first frame: the
/// address, and for each service that is the last of its subdomain the port. It is
/// not registered at first, then exactly if the proxy said that all is well.
pub proof fn client_keeps_to_its_settings(
    settings: SettingsView,
    i: int,
    frame: ProxyFrameView,
    name: Seq<char>,
    error: Option<Seq<char>>,
)
    ensures
        ({
            let start = client_start(settings);
            let next = client_next(start, frame);
            let ack = ProxyFrameView::Message(ProxyMsgView::Registered { ok: true, error });
            &&& !start.registered
            &&& start.bind == settings.bind && next.bind == settings.bind
            &&& start.ports == next.ports
            &&& 0 <= i < settings.services.len() && (forall|j: int|
                i < j < settings.services.len() ==> (#[trigger] settings.services[j]).subdomain
                    != settings.services[i].subdomain) ==> {
                &&& start.ports.contains_key(settings.services[i].subdomain)
                &&& start.ports[settings.services[i].subdomain] == settings.services[i].port
            }
            &&& start.ports.contains_key(name) ==> exists|j: int|
                0 <= j < settings.services.len() && (#[trigger] settings.services[j]).subdomain
                    == name
            &&& client_action(start, ack) is Opened && client_next(start, ack).registered
            &&& match frame {
                ProxyFrameView::Message(ProxyMsgView::Registered { ok: true, .. }) => {
                    client_action(start, frame) is Opened && next.registered
                },
                _ => client_action(start, frame) is Refused && next == start,
            }
        }),
{
    if 0 <= i < settings.services.len() && (forall|j: int|
        i < j < settings.services.len() ==> (#[trigger] settings.services[j]).subdomain
            != settings.services[i].subdomain) {
        last_port_wins(settings.services, i);
    }
    ports_are_the_subdomains(settings.services, name);
    let names = subdomains(settings.services);
    if names.contains(name) {
        assert(settings.services[names.index_of(name)].subdomain == name);
    }
}

/// A client that is refused is told why: the problem with the first frame is the one
/// that it leaves with.
pub proof fn refusal_gives_the_problem(session: SessionView, frame: ProxyFrameView)
    requires
        !session.registered,
    ensures
        client_action(session, frame) matches ClientActionView::Refused(problem)
            ==> handshake_problem(frame) == Some(problem),
{
}

/// The lesser of a number of seconds and a minute.
pub open spec fn at_most_a_minute(seconds: int) -> int {
    if seconds < 60 {
        seconds
    } else {
        60
    }
}

/// The waits of a client, from its first on: the first failure is followed by the
/// delay that it was told, each further one by twice as long a wait as the one
/// before, a minute at the most. An orderly close is followed by no wait, and the
/// next failure by the first delay again.
pub proof fn waits_double(reconnect_delay: u64, state: BackoffView)
    ensures
        wait_after(backoff_start(reconnect_delay), TunnelEnd::Failed) == at_most_a_minute(
            reconnect_delay as int,
        ),
        wait_after(
            backoff_next(backoff_start(reconnect_delay), TunnelEnd::Closed),
            TunnelEnd::Failed,
        ) == at_most_a_minute(reconnect_delay as int),
        wait_after(backoff_next(state, TunnelEnd::Failed), TunnelEnd::Failed) == at_most_a_minute(
            2 * wait_after(state, TunnelEnd::Failed),
        ),
        wait_after(backoff_next(state, TunnelEnd::Closed), TunnelEnd::Failed) == wait_after(
            backoff_next(backoff_next(state, TunnelEnd::Failed), TunnelEnd::Closed),
            TunnelEnd::Failed,
        ),
        wait_after(backoff_next(state, TunnelEnd::Closed), TunnelEnd::Failed) == wait_after(
            backoff_next(backoff_next(state, TunnelEnd::Closed), TunnelEnd::Closed),
            TunnelEnd::Failed,
        ),
        wait_after(state, TunnelEnd::Closed) == 0,
{
}

/// Whatever has happened up to the last orderly close, or the start, `n` failures
/// since then make the wait `2^n` times the first delay, a minute at the most.
pub proof fn waits_grow_since_the_last_close(
    reconnect_delay: u64,
    before: Seq<TunnelEnd>,
    n: nat,
)
    ensures
        wait_after(
            backoff_after(backoff_start(reconnect_delay), failures(n)),
            TunnelEnd::Failed,
        ) == at_most_a_minute(reconnect_delay * pow2(n)),
        wait_after(
            backoff_after(
                backoff_start(reconnect_delay),
                before.push(TunnelEnd::Closed) + failures(n),
            ),
            TunnelEnd::Failed,
        ) == at_most_a_minute(reconnect_delay * pow2(n)),
{
    let start = backoff_start(reconnect_delay);
    backoff_is_exponential(reconnect_delay, n);
    close_starts_anew(reconnect_delay, before);
    ends_follow_each_other(start, before.push(TunnelEnd::Closed), failures(n));
}

proof fn ends_follow_each_other(state: BackoffView, a: Seq<TunnelEnd>, b: Seq<TunnelEnd>)
    ensures
        backoff_after(state, a + b) == backoff_after(backoff_after(state, a), b),
    decreases b.len(),
{
    if b.len() == 0 {
        assert(a + b =~= a);
    } else {
        assert((a + b).drop_last() =~= a + b.drop_last());
        assert((a + b).last() == b.last());
        ends_follow_each_other(state, a, b.drop_last());
    }
}

/// The limits: a body of 32 MB, half a minute for a request, a ping every half
/// minute, 256 messages in line, a minute between two attempts, the port 8080, and
/// what the names and the map of the headers allow. A larger body is answered 413.
pub proof fn limits_are_kept()
    ensures
        MAX_BODY == 32 * 1024 * 1024,
        REQUEST_TIMEOUT == 30,
        PING_INTERVAL == 30,
        QUEUE_LENGTH == 256,
        MAX_DELAY == 60,
        DEFAULT_PORT == 8080,
        MAX_HEADER_NAME == 65535,
        HEADER_MAP_ROOM == 6554,
        body_refused() == (ReplyView::Text { status: 413, text: "body too large (32MB max)"@ }),
{
}

} // verus!

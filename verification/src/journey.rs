//! The way of a request through the tunnel and of its response back, told by what
//! goes in at one end and comes out at the other.
use vstd::prelude::*;
use vstd::utf8::encode_utf8;

use crate::backoff::TunnelEnd;
use crate::client::{
    answer_message, client_action, client_next, client_start, ClientActionView,
    LocalOutcomeView, ProxyFrameView, SessionView,
};
use crate::config::SettingsView;
use crate::laws::{last_port_wins, ports_are_the_subdomains};
use crate::message::{ClientMsgView, ProxyMsgView};
use crate::reading::{
    header_value_is_spelled_by_its_bytes, token_is_made_of_word_characters, word_char,
};
use crate::registry::{subdomains, RouteView};
use crate::reply::ReplyView;
use crate::text::{decimal, lower};
use crate::tunnel::{
    may_overflow, reply_to, request_message, tunnel_action, uuid_text, waiting_after,
    waiting_at_end, waiting_with, written, ClientFrameView, RequestOutcomeView,
    TunnelActionView, WriterEventView,
};
use crate::web::{end_to_end, no_headers, relayed_headers, value_text};

verus! {

/// A message that is queued for a tunnel is the message that the writer sends. A tick
/// sends a ping, and when the queue is closed the writer stops.
pub proof fn queued_message_is_sent(message: ProxyMsgView)
    ensures
        written(WriterEventView::Queued(message)) == Some(message),
        written(WriterEventView::Tick) == Some(ProxyMsgView::Ping),
        written(WriterEventView::QueueClosed) is None,
{
}

/// The client of these settings, once the proxy has accepted its registration.
pub open spec fn connected(settings: SettingsView) -> SessionView {
    client_next(
        client_start(settings),
        ProxyFrameView::Message(ProxyMsgView::Registered { ok: true, error: None }),
    )
}

/// The frame in which a message comes to the client that the writer was woken for.
pub open spec fn delivered(message: ProxyMsgView) -> ProxyFrameView {
    ProxyFrameView::Message(written(WriterEventView::Queued(message))->0)
}

/// A request that is begun at the proxy goes through the writer to the client and
/// from there to the local service: under its id, to the port that the settings have
/// for its service, at the address that they name, with its URI, its body and its
/// method, where a method that is no token becomes `GET`.
pub proof fn request_arrives_at_the_local_service(
    settings: SettingsView,
    i: int,
    request_id: Seq<char>,
    route: RouteView,
    method: Seq<char>,
    headers: Seq<(Seq<char>, Seq<u8>)>,
    body: Seq<u8>,
)
    requires
        0 <= i < settings.services.len(),
        forall|j: int|
            i < j < settings.services.len() ==> (#[trigger] settings.services[j]).subdomain
                != settings.services[i].subdomain,
        route.service == settings.services[i].subdomain,
    ensures
        ({
            let message = request_message(request_id, route, method, headers, body);
            let action = client_action(connected(settings), delivered(message));
            let word = method.len() > 0 && forall|k: int|
                0 <= k < method.len() ==> word_char(#[trigger] method[k]);
            &&& written(WriterEventView::Queued(message)) is Some
            &&& action is Forward
            &&& action->Forward_0.request_id == request_id
            &&& action->Forward_0.url == "http://"@ + settings.bind + ":"@ + decimal(
                settings.services[i].port as nat,
            ) + route.uri
            &&& action->Forward_0.body == body
            &&& word ==> action->Forward_0.method == method
            &&& !word ==> action->Forward_0.method == "GET"@
        }),
{
    last_port_wins(settings.services, i);
    token_is_made_of_word_characters(method);
}

/// The message that reaches the client for a request says what the request says: its
/// id, its service, its method, its URI and its body, and each of its headers in
/// order. The value of a header is spelled out where every byte of it is visible
/// ASCII, a space or a tab, and is empty where not.
pub proof fn request_message_says_it_all(
    request_id: Seq<char>,
    route: RouteView,
    method: Seq<char>,
    headers: Seq<(Seq<char>, Seq<u8>)>,
    body: Seq<u8>,
    k: int,
)
    ensures
        ({
            let message = request_message(request_id, route, method, headers, body);
            &&& delivered(message) == ProxyFrameView::Message(message)
            &&& message is HttpRequest
            &&& message->HttpRequest_request_id == request_id
            &&& message->subdomain == route.service
            &&& message->method == method
            &&& message->uri == route.uri
            &&& message->HttpRequest_body == body
            &&& message->HttpRequest_headers.len() == headers.len()
            &&& 0 <= k < headers.len() ==> message->HttpRequest_headers[k].0 == headers[k].0
            &&& 0 <= k < headers.len() ==> spelled(
                headers[k].1,
                message->HttpRequest_headers[k].1,
            )
        }),
{
    value_is_spelled(headers[k].1);
}

/// `text` has the codes of `bytes` where all of these are visible ASCII, spaces or
/// tabs; otherwise it is empty.
pub open spec fn spelled(bytes: Seq<u8>, text: Seq<char>) -> bool {
    if forall|i: int| 0 <= i < bytes.len() ==> (#[trigger] bytes[i]) == 9 || 32 <= bytes[i] <= 126 {
        text.len() == bytes.len() && forall|i: int|
            0 <= i < bytes.len() ==> (#[trigger] text[i]) as int == bytes[i]
    } else {
        text.len() == 0
    }
}

/// The text of a header value inside a message spells its bytes.
pub proof fn value_is_spelled(bytes: Seq<u8>)
    ensures
        spelled(bytes, value_text(bytes)),
{
    header_value_is_spelled_by_its_bytes(bytes);
}

/// What a client does about a request that comes with these headers.
pub open spec fn action_with(
    session: SessionView,
    request_id: Seq<char>,
    subdomain: Seq<char>,
    method: Seq<char>,
    uri: Seq<char>,
    headers: Seq<(Seq<char>, Seq<char>)>,
    body: Seq<u8>,
) -> ClientActionView {
    client_action(
        session,
        ProxyFrameView::Message(
            ProxyMsgView::HttpRequest { request_id, subdomain, method, uri, headers, body },
        ),
    )
}

/// One more header on a request is one more header on the call of the local service,
/// unless it is one of the four that concern a single connection: those are left out,
/// in capital and small letters alike. The rest of the call is the same.
pub proof fn headers_reach_the_local_service(
    session: SessionView,
    request_id: Seq<char>,
    subdomain: Seq<char>,
    method: Seq<char>,
    uri: Seq<char>,
    headers: Seq<(Seq<char>, Seq<char>)>,
    name: Seq<char>,
    value: Seq<char>,
    body: Seq<u8>,
)
    requires
        session.registered,
        session.ports.contains_key(subdomain),
    ensures
        ({
            let none = action_with(session, request_id, subdomain, method, uri, seq![], body);
            let fewer = action_with(session, request_id, subdomain, method, uri, headers, body);
            let more = action_with(
                session,
                request_id,
                subdomain,
                method,
                uri,
                headers.push((name, value)),
                body,
            );
            let dropped = lower(name) == "host"@ || lower(name) == "connection"@ || lower(name)
                == "upgrade"@ || lower(name) == "transfer-encoding"@;
            &&& none is Forward && fewer is Forward && more is Forward
            &&& none->Forward_0.headers.len() == 0
            &&& dropped ==> more == fewer
            &&& !dropped ==> more->Forward_0.headers == fewer->Forward_0.headers.push(
                (name, value),
            )
            &&& more->Forward_0.request_id == fewer->Forward_0.request_id
            &&& more->Forward_0.method == fewer->Forward_0.method
            &&& more->Forward_0.url == fewer->Forward_0.url
            &&& more->Forward_0.body == fewer->Forward_0.body
        }),
{
    reveal(Seq::filter);
    let more = headers.push((name, value));
    assert(more.drop_last() =~= headers);
    assert(more.last() == (name, value));
    assert(Seq::<(Seq<char>, Seq<char>)>::empty().filter(end_to_end()).len() == 0);
}

/// A request for a service that the settings do not have is answered at once: 502
/// (bad gateway), without headers, and the body says why. It names the request.
pub proof fn unknown_service_is_refused(
    settings: SettingsView,
    request_id: Seq<char>,
    subdomain: Seq<char>,
    method: Seq<char>,
    uri: Seq<char>,
    headers: Seq<(Seq<char>, Seq<char>)>,
    body: Seq<u8>,
)
    requires
        forall|j: int|
            0 <= j < settings.services.len() ==> (#[trigger] settings.services[j]).subdomain
                != subdomain,
    ensures
        ({
            let action = action_with(
                connected(settings),
                request_id,
                subdomain,
                method,
                uri,
                headers,
                body,
            );
            &&& action is Send
            &&& action->Send_0 is HttpResponse
            &&& action->Send_0->HttpResponse_request_id == request_id
            &&& action->Send_0->status == 502
            &&& action->Send_0->HttpResponse_headers.len() == 0
            &&& action->Send_0->HttpResponse_body == encode_utf8("unknown service"@)
        }),
{
    ports_are_the_subdomains(settings.services, subdomain);
    assert(!subdomains(settings.services).contains(subdomain));
}

/// What else a registered client does: it answers a keepalive with a keepalive and a
/// WebSocket ping with its own data, leaves when the tunnel is closed or breaks, and
/// goes on otherwise.
pub proof fn other_frames_are_acted_on(
    settings: SettingsView,
    data: Seq<u8>,
    ok: bool,
    error: Option<Seq<char>>,
)
    ensures
        ({
            let session = connected(settings);
            let ping = ProxyFrameView::Message(ProxyMsgView::Ping);
            let ack = ProxyFrameView::Message(ProxyMsgView::Registered { ok, error });
            let pong = ClientActionView::PongFrame(data);
            &&& client_action(session, ping) == ClientActionView::Send(ClientMsgView::Pong)
            &&& client_action(session, ProxyFrameView::Ping(data)) == pong
            &&& client_action(session, ProxyFrameView::Close) == ClientActionView::Stop(
                TunnelEnd::Closed,
            )
            &&& client_action(session, ProxyFrameView::Ended) == ClientActionView::Stop(
                TunnelEnd::Closed,
            )
            &&& client_action(session, ProxyFrameView::Failed) == ClientActionView::Stop(
                TunnelEnd::Failed,
            )
            &&& client_action(session, ack) is Ignore
            &&& client_action(session, ProxyFrameView::Malformed) is Ignore
            &&& client_action(session, ProxyFrameView::Other) is Ignore
        }),
{
}

/// The answer to a request names it and says what the local service said: its status,
/// its body, or none where that could not be read, and each of its headers in order.
pub proof fn answer_says_what_the_service_said(
    request_id: Seq<char>,
    status: u16,
    headers: Seq<(Seq<char>, Seq<u8>)>,
    body: Seq<u8>,
    k: int,
)
    ensures
        ({
            let with_body = answer_message(
                request_id,
                LocalOutcomeView::Response { status, headers, body: Some(body) },
            );
            let without_body = answer_message(
                request_id,
                LocalOutcomeView::Response { status, headers, body: None },
            );
            &&& with_body is HttpResponse && without_body is HttpResponse
            &&& with_body->HttpResponse_request_id == request_id
            &&& with_body->status == status
            &&& with_body->HttpResponse_body == body
            &&& with_body->HttpResponse_headers.len() == headers.len()
            &&& 0 <= k < headers.len() ==> with_body->HttpResponse_headers[k].0 == headers[k].0
            &&& 0 <= k < headers.len() ==> spelled(
                headers[k].1,
                with_body->HttpResponse_headers[k].1,
            )
            &&& without_body->HttpResponse_request_id == request_id
            &&& without_body->status == status
            &&& without_body->HttpResponse_headers == with_body->HttpResponse_headers
            &&& without_body->HttpResponse_body.len() == 0
        }),
{
    value_is_spelled(headers[k].1);
}

/// The answer to a request whose local service could not be reached names it and is
/// 502 (bad gateway), without headers, and the body gives the reason.
pub proof fn answer_says_what_went_wrong(request_id: Seq<char>, error: Seq<char>)
    ensures
        ({
            let response = answer_message(request_id, LocalOutcomeView::Failed { error });
            &&& response is HttpResponse
            &&& response->HttpResponse_request_id == request_id
            &&& response->status == 502
            &&& response->HttpResponse_headers.len() == 0
            &&& response->HttpResponse_body == encode_utf8("upstream error: "@ + error)
        }),
{
}

/// The proxy hands a response, as it is, to the request that it names, and to no
/// other: that one no longer waits, and the others do. It leaves the tunnel when that
/// is closed or has ended, and does nothing about what else the client sends.
pub proof fn response_is_handed_over(
    waiting: Map<Seq<char>, u64>,
    request_id: Seq<char>,
    status: u16,
    headers: Seq<(Seq<char>, Seq<char>)>,
    body: Seq<u8>,
    other: Seq<char>,
    message: ClientMsgView,
)
    requires
        !(message is HttpResponse),
    ensures
        ({
            let response = ClientMsgView::HttpResponse { request_id, status, headers, body };
            let frame = ClientFrameView::Message(response);
            let rest = waiting_after(waiting, frame);
            &&& waiting.contains_key(request_id) ==> tunnel_action(waiting, frame)
                == TunnelActionView::Deliver { waiter: waiting[request_id], response }
            &&& !waiting.contains_key(request_id) ==> tunnel_action(waiting, frame) is Ignore
            &&& !rest.contains_key(request_id)
            &&& other != request_id ==> rest.contains_key(other) == waiting.contains_key(other)
            &&& other != request_id && waiting.contains_key(other) ==> rest[other]
                == waiting[other]
        }),
        tunnel_action(waiting, ClientFrameView::Close) is Stop,
        tunnel_action(waiting, ClientFrameView::Ended) is Stop,
        tunnel_action(waiting, ClientFrameView::Malformed) is Ignore,
        tunnel_action(waiting, ClientFrameView::Other) is Ignore,
        tunnel_action(waiting, ClientFrameView::Message(message)) is Ignore,
        waiting_after(waiting, ClientFrameView::Close) == waiting,
        waiting_after(waiting, ClientFrameView::Ended) == waiting,
        waiting_after(waiting, ClientFrameView::Malformed) == waiting,
        waiting_after(waiting, ClientFrameView::Other) == waiting,
        waiting_after(waiting, ClientFrameView::Message(message)) == waiting,
{
}

/// A request that has begun waits under its id: a response that names it is handed to
/// its waiter. What waits under another id waits as before.
pub proof fn begun_request_waits(
    waiting: Map<Seq<char>, u64>,
    request_id: Seq<char>,
    waiter: u64,
    status: u16,
    headers: Seq<(Seq<char>, Seq<char>)>,
    body: Seq<u8>,
    other: Seq<char>,
)
    ensures
        ({
            let begun = waiting_with(waiting, request_id, waiter);
            let response = ClientMsgView::HttpResponse { request_id, status, headers, body };
            &&& tunnel_action(begun, ClientFrameView::Message(response))
                == TunnelActionView::Deliver { waiter, response }
            &&& begun.contains_key(request_id) && begun[request_id] == waiter
            &&& other != request_id ==> begun.contains_key(other) == waiting.contains_key(other)
            &&& other != request_id && waiting.contains_key(other) ==> begun[other]
                == waiting[other]
        }),
{
}

/// A response goes on to the caller with its own status if that is from 100 to 999,
/// and with 502 (bad gateway) if not, and with its own body.
pub proof fn status_and_body_reach_the_caller(
    request_id: Seq<char>,
    s: u16,
    headers: Seq<(Seq<char>, Seq<char>)>,
    body: Seq<u8>,
)
    ensures
        ({
            let reply = reply_to(
                RequestOutcomeView::Answered(
                    ClientMsgView::HttpResponse { request_id, status: s, headers, body },
                ),
            );
            &&& reply is Relayed
            &&& 100 <= s <= 999 ==> reply->Relayed_status == s
            &&& !(100 <= s <= 999) ==> reply->Relayed_status == 502
            &&& reply->body == body
        }),
{
}

/// The headers of the answer that a caller gets for a response with these headers.
pub open spec fn headers_of_reply(
    request_id: Seq<char>,
    status: u16,
    headers: Seq<(Seq<char>, Seq<char>)>,
    body: Seq<u8>,
) -> Map<Seq<char>, Seq<Seq<u8>>> {
    reply_to(
        RequestOutcomeView::Answered(
            ClientMsgView::HttpResponse { request_id, status, headers, body },
        ),
    )->headers
}

/// One more header on a response is one more header on the answer to the caller, in
/// place of an earlier one of the same name, if its name is one that a header can
/// have and its value holds no control character but the tab. If not, the answer is
/// the same without it.
pub proof fn headers_reach_the_caller(
    request_id: Seq<char>,
    status: u16,
    headers: Seq<(Seq<char>, Seq<char>)>,
    name: Seq<char>,
    value: Seq<char>,
    body: Seq<u8>,
)
    ensures
        ({
            let fewer = headers_of_reply(request_id, status, headers, body);
            let more = headers_of_reply(request_id, status, headers.push((name, value)), body);
            let bytes = encode_utf8(value);
            let name_ok = 0 < name.len() <= 65535 && forall|i: int|
                0 <= i < name.len() ==> word_char(#[trigger] name[i]);
            let value_ok = forall|i: int|
                0 <= i < bytes.len() ==> (#[trigger] bytes[i]) == 9 || 32 <= bytes[i] <= 126
                    || bytes[i] >= 128;
            &&& name_ok && value_ok ==> more == fewer.insert(lower(name), seq![bytes])
            &&& !(name_ok && value_ok) ==> more == fewer
        }),
        headers_of_reply(request_id, status, seq![], body) == Map::<
            Seq<char>,
            Seq<Seq<u8>>,
        >::empty(),
        headers_of_reply(request_id, status, seq![], body) == no_headers(),
{
    let more = headers.push((name, value));
    assert(more.drop_last() =~= headers);
    assert(more.last() == (name, value));
    token_is_made_of_word_characters(name);
    header_value_is_spelled_by_its_bytes(encode_utf8(value));
}

/// What a caller is told when there is no response: that the request could not be
/// sent, that the tunnel was dropped or that no response came in time, or that what
/// came was none.
pub proof fn caller_learns_what_went_wrong(message: ClientMsgView)
    requires
        !(message is HttpResponse),
    ensures
        reply_to(RequestOutcomeView::NotSent) == (ReplyView::Text {
            status: 502,
            text: "tunnel send failed"@,
        }),
        reply_to(RequestOutcomeView::Dropped) == (ReplyView::Text {
            status: 502,
            text: "tunnel dropped"@,
        }),
        reply_to(RequestOutcomeView::TimedOut) == (ReplyView::Text {
            status: 504,
            text: "request timed out (30s)"@,
        }),
        reply_to(RequestOutcomeView::Answered(message)) == (ReplyView::Text {
            status: 502,
            text: "unexpected response type"@,
        }),
{
}

/// A request that was not sent, or not answered in time, no longer waits when it has
/// come to its end. Apart from that the end of a request changes nothing.
pub proof fn end_of_a_request(
    waiting: Map<Seq<char>, u64>,
    request_id: Seq<char>,
    message: ClientMsgView,
    other: Seq<char>,
)
    ensures
        ({
            let not_sent = waiting_at_end(waiting, request_id, RequestOutcomeView::NotSent);
            let late = waiting_at_end(waiting, request_id, RequestOutcomeView::TimedOut);
            &&& !not_sent.contains_key(request_id) && !late.contains_key(request_id)
            &&& other != request_id ==> not_sent.contains_key(other) == waiting.contains_key(other)
            &&& other != request_id ==> late.contains_key(other) == waiting.contains_key(other)
            &&& other != request_id && waiting.contains_key(other) ==> not_sent[other]
                == waiting[other] && late[other] == waiting[other]
        }),
        waiting_at_end(waiting, request_id, RequestOutcomeView::Answered(message)) == waiting,
        waiting_at_end(waiting, request_id, RequestOutcomeView::Dropped) == waiting,
{
}

/// Only a response with thousands of headers can have more than an answer can hold.
pub proof fn answers_have_room(outcome: RequestOutcomeView)
    requires
        may_overflow(outcome),
    ensures
        outcome is Answered,
        outcome->Answered_0 is HttpResponse,
        outcome->Answered_0->HttpResponse_headers.len() >= 6554,
{
    names_are_no_more_than_headers(outcome->Answered_0->HttpResponse_headers);
}

proof fn names_are_no_more_than_headers(headers: Seq<(Seq<char>, Seq<char>)>)
    ensures
        relayed_headers(headers).dom().finite(),
        relayed_headers(headers).dom().len() <= headers.len(),
    decreases headers.len(),
{
    if headers.len() > 0 {
        names_are_no_more_than_headers(headers.drop_last());
    }
}

/// The id of a request is the text of a random UUID: 32 hexadecimal digits in small
/// letters, with dashes after 8, 12, 16 and 20 of them, a 4 for the version, and one
/// of 8, 9, a and b for the variant.
pub proof fn request_id_is_a_random_uuid(id: Seq<char>, i: int)
    requires
        uuid_text(id),
        0 <= i < 36,
    ensures
        id.len() == 36,
        id[8] == '-' && id[13] == '-' && id[18] == '-' && id[23] == '-',
        i != 8 && i != 13 && i != 18 && i != 23 ==> 48 <= id[i] as int <= 57 || 97 <= id[i] as int
            <= 102,
        id[14] == '4',
        id[19] == '8' || id[19] == '9' || id[19] == 'a' || id[19] == 'b',
{
}

/// A request and its response go the whole way. The request is begun at the proxy,
/// written, read by the client and sent to the local service; what that answers is
/// sent back, and handed to the one who waits, as the answer to the caller.
pub proof fn request_and_response_go_the_whole_way(
    settings: SettingsView,
    waiting: Map<Seq<char>, u64>,
    waiter: u64,
    request_id: Seq<char>,
    route: RouteView,
    method: Seq<char>,
    headers: Seq<(Seq<char>, Seq<u8>)>,
    body: Seq<u8>,
    status: u16,
    answer_headers: Seq<(Seq<char>, Seq<u8>)>,
    answer_body: Seq<u8>,
)
    requires
        exists|j: int|
            0 <= j < settings.services.len() && (#[trigger] settings.services[j]).subdomain
                == route.service,
    ensures
        ({
            let message = request_message(request_id, route, method, headers, body);
            let action = client_action(connected(settings), delivered(message));
            let response = answer_message(
                action->Forward_0.request_id,
                LocalOutcomeView::Response {
                    status,
                    headers: answer_headers,
                    body: Some(answer_body),
                },
            );
            let handed = tunnel_action(
                waiting_with(waiting, request_id, waiter),
                ClientFrameView::Message(response),
            );
            let reply = reply_to(RequestOutcomeView::Answered(handed->response));
            &&& action is Forward
            &&& handed is Deliver
            &&& handed->waiter == waiter
            &&& reply is Relayed
            &&& 100 <= status <= 999 ==> reply->Relayed_status == status
            &&& !(100 <= status <= 999) ==> reply->Relayed_status == 502
            &&& reply->body == answer_body
        }),
{
    let j = choose|j: int|
        0 <= j < settings.services.len() && (#[trigger] settings.services[j]).subdomain
            == route.service;
    assert(subdomains(settings.services)[j] == route.service);
    ports_are_the_subdomains(settings.services, route.service);
}

} // verus!

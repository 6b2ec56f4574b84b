//! What the contracts see of a value is all that it holds: no field is left out or
//! told otherwise.
use vstd::prelude::*;

use crate::client::{
    ClientAction, ClientActionView, HandshakeError, HandshakeErrorView, LocalOutcome,
    LocalOutcomeView, LocalRequest, ProxyFrame, ProxyFrameView,
};
use crate::config::{entry_views, ServiceEntry, Settings};
use crate::message::{
    header_texts, opt_str, opt_text, service_views, ClientMsg, ClientMsgView, ProxyMsg,
    ProxyMsgView, ServiceDef, ServiceView,
};
use crate::registry::{
    routed, texts, Admission, AdmissionView, FirstFrame, FirstFrameView, Route,
};
use crate::reply::{Reply, ReplyView};
use crate::service::parsed_service;
use crate::session::{Phase, PhaseView};
use crate::tunnel::{
    ClientFrame, ClientFrameView, RequestOutcome, RequestOutcomeView, TunnelAction,
    TunnelActionView, WriterEvent, WriterEventView,
};
use crate::web::{header_entries, opt_bytes, raw_headers};

verus! {

/// `view` is the text of `text` where there is one, and nothing where there is none.
pub open spec fn same_text(text: Option<String>, view: Option<Seq<char>>) -> bool {
    &&& text is Some <==> view is Some
    &&& text is Some ==> text->0@ == view->0
}

/// `view` tells each header of `headers`: its name and its value.
pub open spec fn same_headers(
    headers: Seq<(String, String)>,
    view: Seq<(Seq<char>, Seq<char>)>,
) -> bool {
    &&& view.len() == headers.len()
    &&& forall|i: int|
        0 <= i < headers.len() ==> (#[trigger] view[i]).0 == headers[i].0@ && view[i].1
            == headers[i].1@
}

/// `view` tells each service of `services`: its subdomain, port and description.
pub open spec fn same_services(services: Seq<ServiceDef>, view: Seq<ServiceView>) -> bool {
    &&& view.len() == services.len()
    &&& forall|i: int|
        0 <= i < services.len() ==> (#[trigger] view[i]).subdomain == services[i].subdomain@
            && view[i].port == services[i].port && same_text(
            services[i].description,
            view[i].description,
        )
}

/// The lists and options that messages are made of are seen as they are.
pub proof fn parts_are_seen(
    text: Option<String>,
    slice: Option<&str>,
    bytes: Option<Vec<u8>>,
    headers: Seq<(String, String)>,
    raw: Seq<(String, Vec<u8>)>,
    services: Seq<ServiceDef>,
    names: Seq<String>,
)
    ensures
        same_text(text, opt_text(text)),
        slice is Some <==> opt_str(slice) is Some,
        slice is Some ==> opt_str(slice)->0 == slice->0@,
        bytes is Some <==> opt_bytes(bytes) is Some,
        bytes is Some ==> opt_bytes(bytes)->0 == bytes->0@,
        same_headers(headers, header_texts(headers)),
        raw_headers(raw).len() == raw.len(),
        forall|i: int|
            0 <= i < raw.len() ==> (#[trigger] raw_headers(raw)[i]).0 == raw[i].0@ && raw_headers(
                raw,
            )[i].1 == raw[i].1@,
        same_services(services, service_views(services)),
        texts(names).len() == names.len(),
        forall|i: int| 0 <= i < names.len() ==> (#[trigger] texts(names)[i]) == names[i]@,
{
}

/// Settings and the services of a config file are seen as they are.
pub proof fn settings_are_seen(settings: Settings, services: Seq<ServiceEntry>)
    ensures
        settings@.proxy == settings.proxy@,
        settings@.token == settings.token@,
        same_services(settings.services@, settings@.services),
        settings@.reconnect_delay == settings.reconnect_delay,
        settings@.bind == settings.bind@,
        entry_views(services).len() == services.len(),
        forall|i: int|
            0 <= i < services.len() ==> (#[trigger] entry_views(services)[i]).subdomain
                == services[i].subdomain@ && entry_views(services)[i].port == services[i].port
                && same_text(services[i].description, entry_views(services)[i].description),
{
}

/// A message of the client is seen as it is.
pub proof fn client_messages_are_seen(message: ClientMsg)
    ensures
        match (message, message@) {
            (
                ClientMsg::Register { token, services },
                ClientMsgView::Register { token: seen_token, services: seen },
            ) => seen_token == token@ && same_services(services@, seen),
            (
                ClientMsg::HttpResponse { request_id, status, headers, body },
                ClientMsgView::HttpResponse {
                    request_id: seen_id,
                    status: seen_status,
                    headers: seen_headers,
                    body: seen_body,
                },
            ) => {
                &&& seen_id == request_id@
                &&& seen_status == status
                &&& same_headers(headers@, seen_headers)
                &&& seen_body == body@
            },
            (ClientMsg::Pong, ClientMsgView::Pong) => true,
            _ => false,
        },
{
}

/// A message of the proxy is seen as it is.
pub proof fn proxy_messages_are_seen(message: ProxyMsg)
    ensures
        match (message, message@) {
            (
                ProxyMsg::Registered { ok, error },
                ProxyMsgView::Registered { ok: seen_ok, error: seen_error },
            ) => seen_ok == ok && same_text(error, seen_error),
            (
                ProxyMsg::HttpRequest { request_id, subdomain, method, uri, headers, body },
                ProxyMsgView::HttpRequest {
                    request_id: seen_id,
                    subdomain: seen_subdomain,
                    method: seen_method,
                    uri: seen_uri,
                    headers: seen_headers,
                    body: seen_body,
                },
            ) => {
                &&& seen_id == request_id@
                &&& seen_subdomain == subdomain@
                &&& seen_method == method@
                &&& seen_uri == uri@
                &&& same_headers(headers@, seen_headers)
                &&& seen_body == body@
            },
            (ProxyMsg::Ping, ProxyMsgView::Ping) => true,
            _ => false,
        },
{
}

/// What a client receives and does is seen as it is.
pub proof fn client_side_is_seen(
    frame: ProxyFrame,
    action: ClientAction,
    problem: HandshakeError,
    request: LocalRequest,
    outcome: LocalOutcome,
)
    ensures
        match (frame, frame@) {
            (ProxyFrame::Message(message), ProxyFrameView::Message(seen)) => seen == message@,
            (ProxyFrame::Malformed, ProxyFrameView::Malformed) => true,
            (ProxyFrame::Ping(data), ProxyFrameView::Ping(seen)) => seen == data@,
            (ProxyFrame::Close, ProxyFrameView::Close) => true,
            (ProxyFrame::Other, ProxyFrameView::Other) => true,
            (ProxyFrame::Failed, ProxyFrameView::Failed) => true,
            (ProxyFrame::Ended, ProxyFrameView::Ended) => true,
            _ => false,
        },
        match (action, action@) {
            (ClientAction::Opened, ClientActionView::Opened) => true,
            (ClientAction::Refused(problem), ClientActionView::Refused(seen)) => seen == problem@,
            (ClientAction::Forward(request), ClientActionView::Forward(seen)) => seen == request@,
            (ClientAction::Send(message), ClientActionView::Send(seen)) => seen == message@,
            (ClientAction::PongFrame(data), ClientActionView::PongFrame(seen)) => seen == data@,
            (ClientAction::Ignore, ClientActionView::Ignore) => true,
            (ClientAction::Stop(end), ClientActionView::Stop(seen)) => seen == end,
            _ => false,
        },
        match (problem, problem@) {
            (
                HandshakeError::Rejected { reason },
                HandshakeErrorView::Rejected { reason: seen },
            ) => seen == reason@,
            (HandshakeError::Unexpected, HandshakeErrorView::Unexpected) => true,
            (HandshakeError::Bad, HandshakeErrorView::Bad) => true,
            _ => false,
        },
        request@.request_id == request.request_id@,
        request@.method == request.method@,
        request@.url == request.url@,
        same_headers(request.headers@, request@.headers),
        request@.body == request.body@,
        match (outcome, outcome@) {
            (
                LocalOutcome::Response { status, headers, body },
                LocalOutcomeView::Response {
                    status: seen_status,
                    headers: seen_headers,
                    body: seen_body,
                },
            ) => {
                &&& seen_status == status
                &&& seen_headers == raw_headers(headers@)
                &&& seen_body == opt_bytes(body)
            },
            (LocalOutcome::Failed { error }, LocalOutcomeView::Failed { error: seen }) => seen
                == error@,
            _ => false,
        },
{
}

/// What the proxy receives and does is seen as it is.
pub proof fn proxy_side_is_seen(
    first: FirstFrame,
    admission: Admission,
    phase: Phase,
    frame: ClientFrame,
    action: TunnelAction,
    event: WriterEvent,
)
    ensures
        match (first, first@) {
            (FirstFrame::Message(message), FirstFrameView::Message(seen)) => seen == message@,
            (FirstFrame::Malformed, FirstFrameView::Malformed) => true,
            (FirstFrame::NoText, FirstFrameView::NoText) => true,
            _ => false,
        },
        match (admission, admission@) {
            (
                Admission::Accepted { services, reply },
                AdmissionView::Accepted { services: seen_services, reply: seen },
            ) => same_services(services@, seen_services) && seen == reply@,
            (Admission::Rejected { reply }, AdmissionView::Rejected { reply: seen }) => seen
                == reply@,
            (Admission::Ignored, AdmissionView::Ignored) => true,
            _ => false,
        },
        match (phase, phase@) {
            (Phase::Opening, PhaseView::Opening) => true,
            (Phase::Admitted(services), PhaseView::Admitted(seen)) => same_services(
                services@,
                seen,
            ),
            (Phase::Open(names), PhaseView::Open(seen)) => seen == texts(names@),
            (Phase::Closed, PhaseView::Closed) => true,
            _ => false,
        },
        match (frame, frame@) {
            (ClientFrame::Message(message), ClientFrameView::Message(seen)) => seen == message@,
            (ClientFrame::Malformed, ClientFrameView::Malformed) => true,
            (ClientFrame::Close, ClientFrameView::Close) => true,
            (ClientFrame::Other, ClientFrameView::Other) => true,
            (ClientFrame::Ended, ClientFrameView::Ended) => true,
            _ => false,
        },
        match (action, action@) {
            (
                TunnelAction::Deliver { waiter, response },
                TunnelActionView::Deliver { waiter: seen_waiter, response: seen },
            ) => seen_waiter == waiter && seen == response@,
            (TunnelAction::Ignore, TunnelActionView::Ignore) => true,
            (TunnelAction::Stop, TunnelActionView::Stop) => true,
            _ => false,
        },
        match (event, event@) {
            (WriterEvent::Queued(message), WriterEventView::Queued(seen)) => seen == message@,
            (WriterEvent::QueueClosed, WriterEventView::QueueClosed) => true,
            (WriterEvent::Tick, WriterEventView::Tick) => true,
            _ => false,
        },
{
}

/// A route, the end of a request and the answer to a caller are seen as they are.
pub proof fn answers_are_seen(
    route: Route,
    found: Result<Route, Reply>,
    outcome: RequestOutcome,
    reply: Reply,
    parsed: Result<ServiceDef, String>,
)
    ensures
        route@.tunnel == route.tunnel,
        route@.service == route.service@,
        route@.uri == route.uri@,
        match (found, routed(found)) {
            (Ok(route), Ok(seen)) => seen == route@,
            (Err(reply), Err(seen)) => seen == reply@,
            _ => false,
        },
        match (outcome, outcome@) {
            (RequestOutcome::NotSent, RequestOutcomeView::NotSent) => true,
            (RequestOutcome::Answered(message), RequestOutcomeView::Answered(seen)) => seen
                == message@,
            (RequestOutcome::Dropped, RequestOutcomeView::Dropped) => true,
            (RequestOutcome::TimedOut, RequestOutcomeView::TimedOut) => true,
            _ => false,
        },
        match (reply, reply@) {
            (
                Reply::Text { status, text },
                ReplyView::Text { status: seen_status, text: seen },
            ) => seen_status == status && seen == text@,
            (
                Reply::Relayed { status, headers, body },
                ReplyView::Relayed { status: seen_status, headers: seen_headers, body: seen },
            ) => {
                &&& seen_status == status
                &&& seen_headers == header_entries(headers)
                &&& seen == body@
            },
            _ => false,
        },
        match (parsed, parsed_service(parsed)) {
            (Ok(service), Ok(seen)) => {
                &&& seen.subdomain == service.subdomain@
                &&& seen.port == service.port
                &&& same_text(service.description, seen.description)
            },
            (Err(message), Err(seen)) => seen == message@,
            _ => false,
        },
{
}

} // verus!

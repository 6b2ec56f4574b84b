//! The proxy's end of a tunnel: the requests that are on their way through it, and
//! what is done with what comes back.
use vstd::prelude::*;

use dashmap::DashMap;

use crate::message::{ClientMsg, ClientMsgView, ProxyMsg, ProxyMsgView};
use crate::registry::{Route, RouteView};
use crate::reply::{Reply, ReplyView};
use crate::table::{entries, entry, no_entries, table_insert, table_new, table_remove};
use crate::web::{
    carried_headers, carry_headers, opt_bytes, raw_headers, relayed_headers, relayed_status,
    response_headers, sent_status, HeadersOverflow, HEADER_MAP_ROOM,
};

verus! {

/// The largest request body that goes through a tunnel, in bytes.
pub const MAX_BODY: usize = 33_554_432;

/// How long a request waits for its response, in seconds.
pub const REQUEST_TIMEOUT: u64 = 30;

/// The time between two pings, in seconds.
pub const PING_INTERVAL: u64 = 30;

/// How many messages wait in line for a tunnel.
pub const QUEUE_LENGTH: usize = 256;

/// A lower-case hexadecimal digit.
pub open spec fn hex_digit(c: char) -> bool {
    ('0' <= c && c <= '9') || ('a' <= c && c <= 'f')
}

/// The text of a random UUID: hexadecimal digits in groups of 8, 4, 4, 4 and 12,
/// the third group marked as random and the fourth with the variant.
pub open spec fn uuid_text(text: Seq<char>) -> bool {
    &&& text.len() == 36
    &&& forall|i: int|
        0 <= i < 36 ==> if i == 8 || i == 13 || i == 18 || i == 23 {
            #[trigger] text[i] == '-'
        } else {
            hex_digit(text[i])
        }
    &&& text[14] == '4'
    &&& text[19] == '8' || text[19] == '9' || text[19] == 'a' || text[19] == 'b'
}

/// Calls `Uuid::new_v4` and writes the UUID as text. Trusted: the text has the form
/// of a random UUID. Which one it is, and that it is a new one, is left to chance.
/// The call panics where the operating system has no randomness to give.
#[verifier::external_body]
fn new_request_id() -> (id: String)
    ensures
        uuid_text(id@),
{
    uuid::Uuid::new_v4().to_string()
}

/// The message that sends a request through a tunnel.
pub open spec fn request_message(
    request_id: Seq<char>,
    route: RouteView,
    method: Seq<char>,
    headers: Seq<(Seq<char>, Seq<u8>)>,
    body: Seq<u8>,
) -> ProxyMsgView {
    ProxyMsgView::HttpRequest {
        request_id,
        subdomain: route.service,
        method,
        uri: route.uri,
        headers: carried_headers(headers),
        body,
    }
}

/// The requests that wait once one more has begun.
pub open spec fn waiting_with(
    waiting: Map<Seq<char>, u64>,
    request_id: Seq<char>,
    waiter: u64,
) -> Map<Seq<char>, u64> {
    waiting.insert(request_id, waiter)
}

/// What the client at the other end of a tunnel sends.
#[derive(Debug)]
pub enum ClientFrame {
    /// A message.
    Message(ClientMsg),
    /// A text that is no message.
    Malformed,
    /// The client closes the tunnel.
    Close,
    /// Another frame.
    Other,
    /// The connection broke or has ended.
    Ended,
}

/// What a [`ClientFrame`] says.
pub enum ClientFrameView {
    Message(ClientMsgView),
    Malformed,
    Close,
    Other,
    Ended,
}

impl View for ClientFrame {
    type V = ClientFrameView;

    open spec fn view(&self) -> ClientFrameView {
        match *self {
            ClientFrame::Message(message) => ClientFrameView::Message(message@),
            ClientFrame::Malformed => ClientFrameView::Malformed,
            ClientFrame::Close => ClientFrameView::Close,
            ClientFrame::Other => ClientFrameView::Other,
            ClientFrame::Ended => ClientFrameView::Ended,
        }
    }
}

/// What the proxy does about a frame of a client.
#[derive(Debug)]
pub enum TunnelAction {
    /// Hand the response to the request that waits under `waiter`.
    Deliver { waiter: u64, response: ClientMsg },
    /// Go on to the next frame.
    Ignore,
    /// Leave the tunnel.
    Stop,
}

/// What a [`TunnelAction`] says.
pub enum TunnelActionView {
    Deliver { waiter: u64, response: ClientMsgView },
    Ignore,
    Stop,
}

impl View for TunnelAction {
    type V = TunnelActionView;

    open spec fn view(&self) -> TunnelActionView {
        match *self {
            TunnelAction::Deliver { waiter, response } => TunnelActionView::Deliver {
                waiter,
                response: response@,
            },
            TunnelAction::Ignore => TunnelActionView::Ignore,
            TunnelAction::Stop => TunnelActionView::Stop,
        }
    }
}

/// What the proxy does about a frame of a client while these requests wait.
pub open spec fn tunnel_action(
    waiting: Map<Seq<char>, u64>,
    frame: ClientFrameView,
) -> TunnelActionView {
    match frame {
        ClientFrameView::Message(message) => match message {
            ClientMsgView::HttpResponse { request_id, status, headers, body } => {
                match entry(waiting, request_id) {
                    Some(waiter) => TunnelActionView::Deliver { waiter, response: message },
                    None => TunnelActionView::Ignore,
                }
            },
            _ => TunnelActionView::Ignore,
        },
        ClientFrameView::Close => TunnelActionView::Stop,
        ClientFrameView::Ended => TunnelActionView::Stop,
        _ => TunnelActionView::Ignore,
    }
}

/// The requests that wait after a frame of a client.
pub open spec fn waiting_after(waiting: Map<Seq<char>, u64>, frame: ClientFrameView) -> Map<
    Seq<char>,
    u64,
> {
    match frame {
        ClientFrameView::Message(
            ClientMsgView::HttpResponse { request_id, status, headers, body },
        ) => waiting.remove(request_id),
        _ => waiting,
    }
}

/// What became of a request.
#[derive(Debug)]
pub enum RequestOutcome {
    /// It could not be sent: the tunnel is gone.
    NotSent,
    /// A message was handed to it.
    Answered(ClientMsg),
    /// Nothing can be handed to it any more.
    Dropped,
    /// Nothing was handed to it in time.
    TimedOut,
}

/// What a [`RequestOutcome`] says.
pub enum RequestOutcomeView {
    NotSent,
    Answered(ClientMsgView),
    Dropped,
    TimedOut,
}

impl View for RequestOutcome {
    type V = RequestOutcomeView;

    open spec fn view(&self) -> RequestOutcomeView {
        match *self {
            RequestOutcome::NotSent => RequestOutcomeView::NotSent,
            RequestOutcome::Answered(message) => RequestOutcomeView::Answered(message@),
            RequestOutcome::Dropped => RequestOutcomeView::Dropped,
            RequestOutcome::TimedOut => RequestOutcomeView::TimedOut,
        }
    }
}

/// The answer to a request, by what became of it.
pub open spec fn reply_to(outcome: RequestOutcomeView) -> ReplyView {
    match outcome {
        RequestOutcomeView::NotSent => ReplyView::Text {
            status: 502,
            text: "tunnel send failed"@,
        },
        RequestOutcomeView::Answered(
            ClientMsgView::HttpResponse { request_id, status, headers, body },
        ) => ReplyView::Relayed {
            status: sent_status(status),
            headers: relayed_headers(headers),
            body,
        },
        RequestOutcomeView::Answered(_) => ReplyView::Text {
            status: 502,
            text: "unexpected response type"@,
        },
        RequestOutcomeView::Dropped => ReplyView::Text { status: 502, text: "tunnel dropped"@ },
        RequestOutcomeView::TimedOut => ReplyView::Text {
            status: 504,
            text: "request timed out (30s)"@,
        },
    }
}

/// Whether the answer to a request may have more headers than a header map can
/// hold.
pub open spec fn may_overflow(outcome: RequestOutcomeView) -> bool {
    match outcome {
        RequestOutcomeView::Answered(
            ClientMsgView::HttpResponse { request_id, status, headers, body },
        ) => relayed_headers(headers).dom().len() >= HEADER_MAP_ROOM,
        _ => false,
    }
}

/// The requests that wait after one of them has come to its end: it is given up
/// where it was not sent or not answered in time.
pub open spec fn waiting_at_end(
    waiting: Map<Seq<char>, u64>,
    request_id: Seq<char>,
    outcome: RequestOutcomeView,
) -> Map<Seq<char>, u64> {
    match outcome {
        RequestOutcomeView::NotSent => waiting.remove(request_id),
        RequestOutcomeView::TimedOut => waiting.remove(request_id),
        _ => waiting,
    }
}

/// The requests that wait for a response through one tunnel: under the id of each,
/// the one who waits for it.
pub struct Pending {
    waiting: DashMap<String, u64>,
}

impl View for Pending {
    type V = Map<Seq<char>, u64>;

    closed spec fn view(&self) -> Map<Seq<char>, u64> {
        entries(self.waiting)
    }
}

impl Pending {
    /// No request waits.
    pub fn new() -> (res: Self)
        ensures
            res@ == no_entries(),
    {
        Pending { waiting: table_new() }
    }

    /// Begins a request under a random id. Returns the id and the message to send.
    pub fn begin(
        &mut self,
        route: &Route,
        method: String,
        headers: &Vec<(String, Vec<u8>)>,
        body: Vec<u8>,
        waiter: u64,
    ) -> (res: (String, ProxyMsg))
        ensures
            uuid_text(res.0@),
            res.1@ == request_message(
                res.0@,
                route@,
                method@,
                raw_headers(headers@),
                body@,
            ),
            final(self)@ == old(self)@.insert(res.0@, waiter),
            final(self)@ == waiting_with(old(self)@, res.0@, waiter),
    {
        let request_id = new_request_id();
        let message = self.begin_as(&request_id, route, method, headers, body, waiter);
        (request_id, message)
    }

    /// Begins a request under the given id. Returns the message to send.
    pub fn begin_as(
        &mut self,
        request_id: &String,
        route: &Route,
        method: String,
        headers: &Vec<(String, Vec<u8>)>,
        body: Vec<u8>,
        waiter: u64,
    ) -> (res: ProxyMsg)
        ensures
            res@ == request_message(
                request_id@,
                route@,
                method@,
                raw_headers(headers@),
                body@,
            ),
            final(self)@ == old(self)@.insert(request_id@, waiter),
            final(self)@ == waiting_with(old(self)@, request_id@, waiter),
    {
        table_insert(&mut self.waiting, request_id.clone(), waiter);
        ProxyMsg::HttpRequest {
            request_id: request_id.clone(),
            subdomain: route.service.clone(),
            method,
            uri: route.uri.clone(),
            headers: carry_headers(headers),
            body,
        }
    }

    /// What to do about a frame of the client.
    pub fn on_frame(&mut self, frame: ClientFrame) -> (res: TunnelAction)
        ensures
            res@ == tunnel_action(old(self)@, frame@),
            final(self)@ == waiting_after(old(self)@, frame@),
    {
        match frame {
            ClientFrame::Message(
                ClientMsg::HttpResponse { request_id, status, headers, body },
            ) => match table_remove(&mut self.waiting, request_id.as_str()) {
                Some(waiter) => {
                    let response = ClientMsg::HttpResponse { request_id, status, headers, body };
                    TunnelAction::Deliver { waiter, response }
                },
                None => TunnelAction::Ignore,
            },
            ClientFrame::Close => TunnelAction::Stop,
            ClientFrame::Ended => TunnelAction::Stop,
            _ => TunnelAction::Ignore,
        }
    }

    /// Ends a request: gives it up where that is due, and answers it.
    pub fn finish(&mut self, request_id: &str, outcome: RequestOutcome) -> (res: Result<
        Reply,
        HeadersOverflow,
    >)
        ensures
            match res {
                Ok(reply) => reply@ == reply_to(outcome@),
                Err(_) => may_overflow(outcome@),
            },
            final(self)@ == waiting_at_end(old(self)@, request_id@, outcome@),
    {
        match outcome {
            RequestOutcome::NotSent => {
                table_remove(&mut self.waiting, request_id);
                Ok(Reply::Text { status: 502, text: "tunnel send failed".to_owned() })
            },
            RequestOutcome::Answered(message) => answer_of(message),
            RequestOutcome::Dropped => Ok(
                Reply::Text { status: 502, text: "tunnel dropped".to_owned() },
            ),
            RequestOutcome::TimedOut => {
                table_remove(&mut self.waiting, request_id);
                Ok(Reply::Text { status: 504, text: "request timed out (30s)".to_owned() })
            },
        }
    }
}

/// The answer to a request to which a message was handed.
fn answer_of(message: ClientMsg) -> (res: Result<Reply, HeadersOverflow>)
    ensures
        match res {
            Ok(reply) => reply@ == reply_to(RequestOutcomeView::Answered(message@)),
            Err(_) => may_overflow(RequestOutcomeView::Answered(message@)),
        },
{
    match message {
        ClientMsg::HttpResponse { request_id, status, headers, body } => {
            match response_headers(&headers) {
                Ok(map) => Ok(
                    Reply::Relayed { status: relayed_status(status), headers: map, body },
                ),
                Err(overflow) => Err(overflow),
            }
        },
        _ => Ok(Reply::Text { status: 502, text: "unexpected response type".to_owned() }),
    }
}

/// The answer to a request whose body is too large, or cannot be read.
pub open spec fn body_refused() -> ReplyView {
    ReplyView::Text { status: 413, text: "body too large (32MB max)"@ }
}

/// What is taken of a body, as far as it could be read, or the answer where it is
/// refused.
pub open spec fn body_taken(body: Option<Seq<u8>>) -> Result<Seq<u8>, ReplyView> {
    match body {
        Some(bytes) => if bytes.len() <= MAX_BODY {
            Ok(bytes)
        } else {
            Err(body_refused())
        },
        None => Err(body_refused()),
    }
}

/// Takes the body of a request, as far as it could be read. A body that could not
/// be, or is longer than [`MAX_BODY`], is refused.
pub fn take_body(body: Option<Vec<u8>>) -> (res: Result<Vec<u8>, Reply>)
    ensures
        match res {
            Ok(taken) => body_taken(opt_bytes(body)) == Ok::<Seq<u8>, ReplyView>(taken@),
            Err(reply) => body_taken(opt_bytes(body)) == Err::<Seq<u8>, ReplyView>(reply@),
        },
        match res {
            Ok(taken) => body == Some(taken) && taken@.len() <= MAX_BODY,
            Err(reply) => (body matches Some(body) ==> body@.len() > MAX_BODY) && reply@
                == body_refused(),
        },
{
    match body {
        Some(body) if body.len() <= MAX_BODY => Ok(body),
        _ => Err(Reply::Text { status: 413, text: "body too large (32MB max)".to_owned() }),
    }
}

/// What wakes the writer of a tunnel.
#[derive(Debug)]
pub enum WriterEvent {
    /// A message to send.
    Queued(ProxyMsg),
    /// There will be no more messages to send.
    QueueClosed,
    /// It is time for a ping.
    Tick,
}

/// What a [`WriterEvent`] says.
pub enum WriterEventView {
    Queued(ProxyMsgView),
    QueueClosed,
    Tick,
}

impl View for WriterEvent {
    type V = WriterEventView;

    open spec fn view(&self) -> WriterEventView {
        match *self {
            WriterEvent::Queued(message) => WriterEventView::Queued(message@),
            WriterEvent::QueueClosed => WriterEventView::QueueClosed,
            WriterEvent::Tick => WriterEventView::Tick,
        }
    }
}

/// The message to send, or none when the writer is to stop.
pub open spec fn written(event: WriterEventView) -> Option<ProxyMsgView> {
    match event {
        WriterEventView::Queued(message) => Some(message),
        WriterEventView::QueueClosed => None,
        WriterEventView::Tick => Some(ProxyMsgView::Ping),
    }
}

/// The message that the writer of a tunnel sends next; none when it is to stop.
pub fn next_message(event: WriterEvent) -> (res: Option<ProxyMsg>)
    ensures
        match res {
            Some(message) => written(event@) == Some(message@),
            None => written(event@) is None,
        },
{
    match event {
        WriterEvent::Queued(message) => Some(message),
        WriterEvent::QueueClosed => None,
        WriterEvent::Tick => Some(ProxyMsg::Ping),
    }
}

} // verus!

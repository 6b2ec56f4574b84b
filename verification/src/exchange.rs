//! Many requests on one tunnel: whatever order their answers come in, each request
//! gets its own.
use vstd::prelude::*;

use crate::client::{
    answer_message, client_action, unknown_service, ClientActionView, LocalOutcomeView,
    ProxyFrameView, SessionView,
};
use crate::message::{ClientMsgView, ProxyMsgView};
use crate::table::entry;
use crate::tunnel::{tunnel_action, waiting_after, ClientFrameView, TunnelActionView};

verus! {

/// What happens to a client whose services are registered.
pub enum ClientEventView {
    /// It reads a frame.
    Read(ProxyFrameView),
    /// The local call for the frame with this number has come to an end. Frames are
    /// numbered from zero, in the order in which they are read.
    Finished { frame: int, outcome: LocalOutcomeView },
}

/// What has passed between a client and the proxy: the frames that the client has
/// read, the outcome of each local call that has ended, under the number of its
/// frame, and the messages that the client has sent, each with the number of the
/// frame that it was sent for.
pub struct ExchangeView {
    pub read: Seq<ProxyFrameView>,
    pub outcomes: Map<int, LocalOutcomeView>,
    pub sent: Seq<(int, ClientMsgView)>,
}

/// A local call for this frame is on its way.
pub open spec fn in_flight(session: SessionView, exchange: ExchangeView, frame: int) -> bool {
    &&& 0 <= frame < exchange.read.len()
    &&& client_action(session, exchange.read[frame]) is Forward
    &&& !exchange.outcomes.contains_key(frame)
}

/// The exchange after one more event. A frame is acted on when it is read, and a
/// local call is answered when it ends; it ends once.
pub open spec fn exchange_next(
    session: SessionView,
    exchange: ExchangeView,
    event: ClientEventView,
) -> ExchangeView {
    match event {
        ClientEventView::Read(frame) => ExchangeView {
            read: exchange.read.push(frame),
            outcomes: exchange.outcomes,
            sent: match client_action(session, frame) {
                ClientActionView::Send(message) => exchange.sent.push(
                    (exchange.read.len() as int, message),
                ),
                _ => exchange.sent,
            },
        },
        ClientEventView::Finished { frame, outcome } => if in_flight(session, exchange, frame) {
            let request = client_action(session, exchange.read[frame])->Forward_0;
            ExchangeView {
                read: exchange.read,
                outcomes: exchange.outcomes.insert(frame, outcome),
                sent: exchange.sent.push((frame, answer_message(request.request_id, outcome))),
            }
        } else {
            exchange
        },
    }
}

/// The exchange after some events, from the first frame after the registration on.
pub open spec fn exchange_after(
    session: SessionView,
    events: Seq<ClientEventView>,
) -> ExchangeView
    decreases events.len(),
{
    if events.len() == 0 {
        ExchangeView { read: seq![], outcomes: Map::empty(), sent: seq![] }
    } else {
        exchange_next(session, exchange_after(session, events.drop_last()), events.last())
    }
}

/// The id of the request that a frame carries, if it carries one.
pub open spec fn request_of(frame: ProxyFrameView) -> Option<Seq<char>> {
    match frame {
        ProxyFrameView::Message(ProxyMsgView::HttpRequest { request_id, .. }) => Some(request_id),
        _ => None,
    }
}

/// No two requests among some frames have the same id.
pub open spec fn ids_differ(frames: Seq<ProxyFrameView>) -> bool {
    forall|i: int, j: int|
        0 <= i < j < frames.len() && request_of(#[trigger] frames[i]) is Some ==> request_of(
            frames[i],
        ) != request_of(#[trigger] frames[j])
}

/// The answer that the frame with this number is owed so far: none if it is no
/// request, an error if the client does not have the service, and otherwise the
/// outcome of the frame's own local call, once there is one.
pub open spec fn own_answer(
    session: SessionView,
    exchange: ExchangeView,
    frame: int,
) -> Option<ClientMsgView> {
    match exchange.read[frame] {
        ProxyFrameView::Message(ProxyMsgView::HttpRequest { request_id, subdomain, .. }) => {
            if !session.ports.contains_key(subdomain) {
                Some(unknown_service(request_id))
            } else if exchange.outcomes.contains_key(frame) {
                Some(answer_message(request_id, exchange.outcomes[frame]))
            } else {
                None
            }
        },
        _ => None,
    }
}

/// Several requests with different ids are read on one connection, and their local
/// calls end in any order. Each response that the client sends names a request that
/// it has read before and is that request's own answer, no request gets more than
/// one, and a request whose local call is no longer on its way has got one. An
/// outcome is one that the local call for that frame had. All this holds after every
/// event, not only at the end.
pub proof fn requests_are_answered_once(session: SessionView, events: Seq<ClientEventView>)
    requires
        session.registered,
        ids_differ(exchange_after(session, events).read),
    ensures
        ({
            let exchange = exchange_after(session, events);
            &&& forall|k: int|
                0 <= k < exchange.sent.len() && (#[trigger] exchange.sent[k]).1 is HttpResponse
                    ==> {
                    let (frame, response) = exchange.sent[k];
                    &&& 0 <= frame < exchange.read.len()
                    &&& request_of(exchange.read[frame]) == Some(
                        response->HttpResponse_request_id,
                    )
                    &&& own_answer(session, exchange, frame) == Some(response)
                }
            &&& forall|k: int, l: int|
                0 <= k < l < exchange.sent.len() && (#[trigger] exchange.sent[k]).1 is HttpResponse
                    && (#[trigger] exchange.sent[l]).1 is HttpResponse
                    ==> exchange.sent[k].1->HttpResponse_request_id
                    != exchange.sent[l].1->HttpResponse_request_id
            &&& forall|frame: int|
                0 <= frame < exchange.read.len() && request_of(#[trigger] exchange.read[frame])
                    is Some && !in_flight(session, exchange, frame) ==> own_answer(
                    session,
                    exchange,
                    frame,
                ) is Some && exchange.sent.contains(
                    (frame, own_answer(session, exchange, frame)->0),
                )
            &&& forall|frame: int| #[trigger]
                exchange.outcomes.contains_key(frame) ==> events.contains(
                    ClientEventView::Finished { frame, outcome: exchange.outcomes[frame] },
                )
        }),
{
    exchange_is_sound(session, events);
    let exchange = exchange_after(session, events);
    assert forall|k: int|
        0 <= k < exchange.sent.len() && (
        #[trigger] exchange.sent[k]).1 is HttpResponse implies request_of(
        exchange.read[exchange.sent[k].0],
    ) == Some(exchange.sent[k].1->HttpResponse_request_id) by {
        assert(own_answer(session, exchange, exchange.sent[k].0) == Some(exchange.sent[k].1));
    }
    assert forall|k: int, l: int|
        0 <= k < l < exchange.sent.len() && (#[trigger] exchange.sent[k]).1 is HttpResponse && (
        #[trigger] exchange.sent[l]).1 is HttpResponse implies
        exchange.sent[k].1->HttpResponse_request_id
        != exchange.sent[l].1->HttpResponse_request_id by {
        let (i, j) = (exchange.sent[k].0, exchange.sent[l].0);
        assert(i != j);
        assert(request_of(exchange.read[i]) is Some && request_of(exchange.read[j]) is Some);
        assert(request_of(exchange.read[i]) != request_of(exchange.read[j]));
    }
}

/// A local call that ends is answered at that moment, whatever others are on their
/// way, and those stay on their way.
pub proof fn answers_come_in_any_order(
    session: SessionView,
    exchange: ExchangeView,
    frame: int,
    outcome: LocalOutcomeView,
    other: int,
)
    requires
        session.registered,
        in_flight(session, exchange, frame),
    ensures
        ({
            let next = exchange_next(
                session,
                exchange,
                ClientEventView::Finished { frame, outcome },
            );
            &&& request_of(exchange.read[frame]) is Some
            &&& next.sent == exchange.sent.push(
                (frame, answer_message(request_of(exchange.read[frame])->0, outcome)),
            )
            &&& !in_flight(session, next, frame)
            &&& other != frame ==> in_flight(session, next, other) == in_flight(
                session,
                exchange,
                other,
            )
        }),
{
}

/// What an exchange keeps whatever happens: a response is its frame's own answer, a
/// frame has at most one response, an answer that is owed has been sent, and only
/// local calls have outcomes.
spec fn sound(
    session: SessionView,
    exchange: ExchangeView,
    events: Seq<ClientEventView>,
) -> bool {
    &&& forall|k: int|
        0 <= k < exchange.sent.len() ==> 0 <= (#[trigger] exchange.sent[k]).0 < exchange.read.len()
    &&& forall|k: int|
        0 <= k < exchange.sent.len() && (#[trigger] exchange.sent[k]).1 is HttpResponse
            ==> own_answer(session, exchange, exchange.sent[k].0) == Some(exchange.sent[k].1)
    &&& forall|k: int, l: int|
        0 <= k < l < exchange.sent.len() && (#[trigger] exchange.sent[k]).1 is HttpResponse && (
        #[trigger] exchange.sent[l]).1 is HttpResponse ==> exchange.sent[k].0
            != exchange.sent[l].0
    &&& forall|frame: int|
        0 <= frame < exchange.read.len() && (#[trigger] own_answer(
            session,
            exchange,
            frame,
        )) is Some ==> exchange.sent.contains((frame, own_answer(session, exchange, frame)->0))
    &&& forall|frame: int| #[trigger]
        exchange.outcomes.contains_key(frame) ==> 0 <= frame < exchange.read.len()
            && events.contains(
            ClientEventView::Finished { frame, outcome: exchange.outcomes[frame] },
        )
}

proof fn exchange_is_sound(session: SessionView, events: Seq<ClientEventView>)
    requires
        session.registered,
    ensures
        sound(session, exchange_after(session, events), events),
    decreases events.len(),
{
    if events.len() > 0 {
        let init = events.drop_last();
        exchange_is_sound(session, init);
        sound_next(session, exchange_after(session, init), init, events.last());
        assert(init.push(events.last()) =~= events);
    }
}

proof fn sound_next(
    session: SessionView,
    now: ExchangeView,
    events: Seq<ClientEventView>,
    event: ClientEventView,
)
    requires
        session.registered,
        sound(session, now, events),
    ensures
        sound(session, exchange_next(session, now, event), events.push(event)),
{
    let next = exchange_next(session, now, event);
    let count = now.sent.len() as int;
    // What the event is about: the frame that is read, or the one whose call ends.
    let about: int = match event {
        ClientEventView::Read(_) => now.read.len() as int,
        ClientEventView::Finished { frame, .. } => frame,
    };
    assert(forall|k: int| 0 <= k < count ==> #[trigger] next.sent[k] == now.sent[k]);
    assert forall|frame: int|
        0 <= frame < now.read.len() && !(frame == about && in_flight(
            session,
            now,
            frame,
        )) implies #[trigger] own_answer(session, next, frame) == own_answer(
        session,
        now,
        frame,
    ) by {
        assert(next.read[frame] == now.read[frame]);
    }
    // The frame that the event is about had no answer yet.
    if 0 <= about < now.read.len() && in_flight(session, now, about) {
        assert(own_answer(session, now, about) is None);
    }
    assert(events.push(event)[events.len() as int] == event);
    assert forall|frame: int| #[trigger]
        next.outcomes.contains_key(frame) implies 0 <= frame < next.read.len() && events.push(
        event,
    ).contains(ClientEventView::Finished { frame, outcome: next.outcomes[frame] }) by {
        let old_end = ClientEventView::Finished { frame, outcome: now.outcomes[frame] };
        if now.outcomes.contains_key(frame) && next.outcomes[frame] == now.outcomes[frame] {
            assert(events.push(event)[events.index_of(old_end)] == old_end);
        }
    }
    assert forall|frame: int|
        0 <= frame < next.read.len() && (#[trigger] own_answer(
            session,
            next,
            frame,
        )) is Some implies next.sent.contains((frame, own_answer(session, next, frame)->0)) by {
        let owed = (frame, own_answer(session, next, frame)->0);
        if frame < now.read.len() && own_answer(session, now, frame) is Some {
            assert(now.sent.contains(owed));
            assert(next.sent[now.sent.index_of(owed)] == owed);
        } else {
            assert(next.sent[count] == owed);
        }
    }
}

/// The requests that wait at the proxy after some responses.
pub open spec fn waiting_after_all(
    waiting: Map<Seq<char>, u64>,
    responses: Seq<ClientMsgView>,
) -> Map<Seq<char>, u64>
    decreases responses.len(),
{
    if responses.len() == 0 {
        waiting
    } else {
        waiting_after(
            waiting_after_all(waiting, responses.drop_last()),
            ClientFrameView::Message(responses.last()),
        )
    }
}

/// No two responses name the same request.
pub open spec fn responses_differ(responses: Seq<ClientMsgView>) -> bool {
    &&& forall|i: int| 0 <= i < responses.len() ==> (#[trigger] responses[i]) is HttpResponse
    &&& forall|i: int, j: int|
        0 <= i < j < responses.len() ==> (#[trigger] responses[i])->HttpResponse_request_id != (
        #[trigger] responses[j])->HttpResponse_request_id
}

/// Responses to different requests reach the proxy one after the other. Whatever
/// their order and whatever has come before, each is handed to the request that it
/// names, if that one waits; and what no response names still waits.
pub proof fn responses_find_their_requests(
    waiting: Map<Seq<char>, u64>,
    responses: Seq<ClientMsgView>,
    k: int,
    other: Seq<char>,
)
    requires
        responses_differ(responses),
        0 <= k < responses.len(),
    ensures
        tunnel_action(
            waiting_after_all(waiting, responses.take(k)),
            ClientFrameView::Message(responses[k]),
        ) == match entry(waiting, responses[k]->HttpResponse_request_id) {
            Some(waiter) => TunnelActionView::Deliver { waiter, response: responses[k] },
            None => TunnelActionView::Ignore,
        },
        (forall|i: int|
            0 <= i < responses.len() ==> (#[trigger] responses[i])->HttpResponse_request_id
                != other) ==> entry(waiting_after_all(waiting, responses), other) == entry(
            waiting,
            other,
        ),
{
    if forall|i: int|
        0 <= i < responses.len() ==> (#[trigger] responses[i])->HttpResponse_request_id != other {
        unnamed_still_waits(waiting, responses, other);
    }
    unnamed_still_waits(waiting, responses.take(k), responses[k]->HttpResponse_request_id);
}

proof fn unnamed_still_waits(
    waiting: Map<Seq<char>, u64>,
    responses: Seq<ClientMsgView>,
    other: Seq<char>,
)
    requires
        forall|i: int|
            0 <= i < responses.len() ==> (#[trigger] responses[i]) is HttpResponse
                && responses[i]->HttpResponse_request_id != other,
    ensures
        entry(waiting_after_all(waiting, responses), other) == entry(waiting, other),
    decreases responses.len(),
{
    if responses.len() > 0 {
        let init = responses.drop_last();
        assert forall|i: int| 0 <= i < init.len() implies (#[trigger] init[i]) is HttpResponse
            && init[i]->HttpResponse_request_id != other by {
            assert(init[i] == responses[i]);
        }
        unnamed_still_waits(waiting, init, other);
        assert(responses.last() == responses[responses.len() - 1]);
    }
}

} // verus!

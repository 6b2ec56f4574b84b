use nuts_tunnel::client::{
    answer, ClientAction, LocalOutcome, LocalRequest, ProxyFrame, Session,
};
use nuts_tunnel::config::Settings;
use nuts_tunnel::message::{ClientMsg, ProxyMsg};
use nuts_tunnel::registry::Route;
use nuts_tunnel::service::parse_service;
use nuts_tunnel::tunnel::{ClientFrame, Pending, TunnelAction};

fn open(services: &[&str]) -> Session {
    let settings = Settings {
        proxy: "ws://proxy/nuts/ws".to_string(),
        token: String::new(),
        services: services.iter().map(|s| parse_service(s).unwrap()).collect(),
        reconnect_delay: 5,
        bind: "127.0.0.1".to_string(),
    };
    let (mut session, _) = Session::start(&settings);
    let ack = ProxyMsg::Registered { ok: true, error: None };
    assert!(matches!(session.on_frame(ProxyFrame::Message(ack)), ClientAction::Opened));
    session
}

fn request(request_id: &str, subdomain: &str, uri: &str) -> ProxyFrame {
    ProxyFrame::Message(ProxyMsg::HttpRequest {
        request_id: request_id.to_string(),
        subdomain: subdomain.to_string(),
        method: "GET".to_string(),
        uri: uri.to_string(),
        headers: vec![],
        body: vec![],
    })
}

/// A service that answers with the URL it was called at.
fn echo(call: LocalRequest) -> ClientMsg {
    let body = Some(call.url.into_bytes());
    answer(call.request_id, LocalOutcome::Response { status: 200, headers: vec![], body })
}

fn parts(message: &ClientMsg) -> (String, u16, String) {
    match message {
        ClientMsg::HttpResponse { request_id, status, body, .. } => {
            (request_id.clone(), *status, String::from_utf8(body.clone()).unwrap())
        }
        other => panic!("{other:?}"),
    }
}

#[test]
fn requests_answered_out_of_order() {
    let mut session = open(&["app=8080", "api=3000"]);
    let mut calls: Vec<LocalRequest> = Vec::new();
    let mut sent: Vec<ClientMsg> = Vec::new();
    for frame in [
        request("a", "app", "/1"),
        request("b", "api", "/2"),
        ProxyFrame::Malformed,
        request("c", "nope", "/3"),
        request("d", "app", "/4"),
    ] {
        match session.on_frame(frame) {
            ClientAction::Forward(call) => calls.push(call),
            ClientAction::Send(message) => sent.push(message),
            ClientAction::Ignore => {}
            other => panic!("{other:?}"),
        }
    }
    while let Some(call) = calls.pop() {
        sent.push(echo(call));
    }
    let sent: Vec<(String, u16, String)> = sent.iter().map(parts).collect();
    let expected = [
        ("c", 502, "unknown service"),
        ("d", 200, "http://127.0.0.1:8080/4"),
        ("b", 200, "http://127.0.0.1:3000/2"),
        ("a", 200, "http://127.0.0.1:8080/1"),
    ];
    assert_eq!(sent.len(), expected.len());
    for (sent, expected) in sent.iter().zip(expected) {
        assert_eq!((sent.0.as_str(), sent.1, sent.2.as_str()), expected);
    }
}

#[test]
fn every_caller_gets_its_own_response() {
    let mut session = open(&["app=8080"]);
    let mut pending = Pending::new();
    let mut calls: Vec<LocalRequest> = Vec::new();
    for waiter in 0..6u64 {
        let route = Route { tunnel: 0, service: "app".to_string(), uri: format!("/{waiter}") };
        let (_, message) = pending.begin(&route, "GET".to_string(), &vec![], vec![], waiter);
        match session.on_frame(ProxyFrame::Message(message)) {
            ClientAction::Forward(call) => calls.push(call),
            other => panic!("{other:?}"),
        }
    }
    for pick in [3, 0, 2, 2, 1, 0] {
        let response = echo(calls.remove(pick));
        match pending.on_frame(ClientFrame::Message(response)) {
            TunnelAction::Deliver { waiter, response } => {
                assert_eq!(parts(&response).2, format!("http://127.0.0.1:8080/{waiter}"));
            }
            other => panic!("{other:?}"),
        }
    }
}

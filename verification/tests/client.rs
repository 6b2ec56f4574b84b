use nuts_tunnel::backoff::TunnelEnd;
use nuts_tunnel::client::{
    answer, handshake, ClientAction, HandshakeError, LocalOutcome, ProxyFrame, Session,
};
use nuts_tunnel::config::Settings;
use nuts_tunnel::message::{ClientMsg, ProxyMsg};
use nuts_tunnel::service::parse_service;

fn settings(services: &[&str]) -> Settings {
    Settings {
        proxy: "ws://proxy/nuts/ws".to_string(),
        token: "secret".to_string(),
        services: services.iter().map(|s| parse_service(s).unwrap()).collect(),
        reconnect_delay: 5,
        bind: "127.0.0.1".to_string(),
    }
}

fn ack() -> ProxyFrame {
    ProxyFrame::Message(ProxyMsg::Registered { ok: true, error: None })
}

fn open(services: &[&str]) -> Session {
    let (mut session, _) = Session::start(&settings(services));
    assert!(matches!(session.on_frame(ack()), ClientAction::Opened));
    session
}

fn request(subdomain: &str) -> ProxyFrame {
    ProxyFrame::Message(ProxyMsg::HttpRequest {
        request_id: "id-1".to_string(),
        subdomain: subdomain.to_string(),
        method: "POST".to_string(),
        uri: "/health?full=1".to_string(),
        headers: vec![
            ("Host".to_string(), "app.example.com".to_string()),
            ("Accept".to_string(), "*/*".to_string()),
        ],
        body: vec![1, 2, 3],
    })
}

#[test]
fn client_begins_with_its_registration() {
    let (_, message) = Session::start(&settings(&["app=8080", "api=3000"]));
    match message {
        ClientMsg::Register { token, services } => {
            assert_eq!(token, "secret");
            assert_eq!(services.len(), 2);
            assert_eq!(services[0].subdomain, "app");
            assert_eq!(services[1].port, 3000);
        }
        other => panic!("{other:?}"),
    }
}

#[test]
fn accepted_handshake() {
    assert!(handshake(ack()).is_ok());
    let odd = ProxyMsg::Registered { ok: true, error: Some("ignored".to_string()) };
    assert!(handshake(ProxyFrame::Message(odd)).is_ok());
}

#[test]
fn rejected_handshake() {
    let bad = ProxyMsg::Registered { ok: false, error: Some("bad token".to_string()) };
    let problem = handshake(ProxyFrame::Message(bad)).unwrap_err();
    assert_eq!(problem.message("x"), "registration rejected: bad token");
    let bad = ProxyMsg::Registered { ok: false, error: None };
    let problem = handshake(ProxyFrame::Message(bad)).unwrap_err();
    assert_eq!(problem.message("x"), "registration rejected: ");
}

#[test]
fn unexpected_handshake() {
    for frame in [ProxyFrame::Message(ProxyMsg::Ping), request("app"), ProxyFrame::Malformed] {
        let problem = handshake(frame).unwrap_err();
        assert!(matches!(problem, HandshakeError::Unexpected));
        assert_eq!(problem.message("Ok(Ping)"), "unexpected response: Ok(Ping)");
    }
}

#[test]
fn bad_handshake() {
    for frame in [
        ProxyFrame::Ping(vec![]),
        ProxyFrame::Close,
        ProxyFrame::Other,
        ProxyFrame::Failed,
        ProxyFrame::Ended,
    ] {
        let problem = handshake(frame).unwrap_err();
        assert!(matches!(problem, HandshakeError::Bad));
        assert_eq!(problem.message("None"), "bad handshake: None");
    }
}

#[test]
fn nothing_happens_before_the_handshake() {
    let (mut session, _) = Session::start(&settings(&["app=8080"]));
    assert!(matches!(
        session.on_frame(request("app")),
        ClientAction::Refused(HandshakeError::Unexpected)
    ));
    assert!(matches!(session.on_frame(ack()), ClientAction::Opened));
    assert!(matches!(session.on_frame(request("app")), ClientAction::Forward(_)));
}

#[test]
fn request_for_a_service() {
    match open(&["app=8080", "api=3000"]).on_frame(request("api")) {
        ClientAction::Forward(request) => {
            assert_eq!(request.request_id, "id-1");
            assert_eq!(request.method, "POST");
            assert_eq!(request.url, "http://127.0.0.1:3000/health?full=1");
            assert_eq!(request.headers, [("Accept".to_string(), "*/*".to_string())]);
            assert_eq!(request.body, [1, 2, 3]);
        }
        other => panic!("{other:?}"),
    }
}

#[test]
fn later_port_of_a_subdomain_wins() {
    match open(&["app=8080", "app=9090"]).on_frame(request("app")) {
        ClientAction::Forward(request) => {
            assert_eq!(request.url, "http://127.0.0.1:9090/health?full=1");
        }
        other => panic!("{other:?}"),
    }
}

#[test]
fn request_for_an_unknown_service() {
    match open(&["app=8080"]).on_frame(request("nope")) {
        ClientAction::Send(ClientMsg::HttpResponse { request_id, status, headers, body }) => {
            assert_eq!(request_id, "id-1");
            assert_eq!(status, 502);
            assert!(headers.is_empty());
            assert_eq!(body, b"unknown service");
        }
        other => panic!("{other:?}"),
    }
}

#[test]
fn other_frames() {
    let mut session = open(&["app=8080"]);
    let ping = ProxyFrame::Message(ProxyMsg::Ping);
    assert!(matches!(session.on_frame(ping), ClientAction::Send(ClientMsg::Pong)));
    match session.on_frame(ProxyFrame::Ping(vec![7, 8])) {
        ClientAction::PongFrame(data) => assert_eq!(data, [7, 8]),
        other => panic!("{other:?}"),
    }
    assert!(matches!(session.on_frame(ack()), ClientAction::Ignore));
    assert!(matches!(session.on_frame(ProxyFrame::Malformed), ClientAction::Ignore));
    assert!(matches!(session.on_frame(ProxyFrame::Other), ClientAction::Ignore));
}

#[test]
fn ends_of_a_tunnel() {
    let mut session = open(&["app=8080"]);
    assert!(matches!(
        session.on_frame(ProxyFrame::Close),
        ClientAction::Stop(TunnelEnd::Closed)
    ));
    assert!(matches!(
        session.on_frame(ProxyFrame::Ended),
        ClientAction::Stop(TunnelEnd::Closed)
    ));
    assert!(matches!(
        session.on_frame(ProxyFrame::Failed),
        ClientAction::Stop(TunnelEnd::Failed)
    ));
}

#[test]
fn answer_of_a_service() {
    let outcome = LocalOutcome::Response {
        status: 404,
        headers: vec![
            ("content-type".to_string(), b"text/plain".to_vec()),
            ("x-raw".to_string(), vec![0xe9]),
        ],
        body: Some(b"gone".to_vec()),
    };
    match answer("id-2".to_string(), outcome) {
        ClientMsg::HttpResponse { request_id, status, headers, body } => {
            assert_eq!(request_id, "id-2");
            assert_eq!(status, 404);
            assert_eq!(headers[0], ("content-type".to_string(), "text/plain".to_string()));
            assert_eq!(headers[1], ("x-raw".to_string(), String::new()));
            assert_eq!(headers.len(), 2);
            assert_eq!(body, b"gone");
        }
        other => panic!("{other:?}"),
    }
}

#[test]
fn answer_without_a_body() {
    let outcome = LocalOutcome::Response { status: 200, headers: vec![], body: None };
    match answer("id".to_string(), outcome) {
        ClientMsg::HttpResponse { status, body, .. } => {
            assert_eq!(status, 200);
            assert!(body.is_empty());
        }
        other => panic!("{other:?}"),
    }
}

#[test]
fn answer_of_a_service_that_is_down() {
    let outcome = LocalOutcome::Failed { error: "connection refused \u{2014} os".to_string() };
    match answer("id".to_string(), outcome) {
        ClientMsg::HttpResponse { request_id, status, headers, body } => {
            assert_eq!(request_id, "id");
            assert_eq!(status, 502);
            assert!(headers.is_empty());
            assert_eq!(body, "upstream error: connection refused \u{2014} os".as_bytes());
        }
        other => panic!("{other:?}"),
    }
}

use nuts_tunnel::client::{answer, ClientAction, LocalOutcome, ProxyFrame, Session};
use nuts_tunnel::config::Settings;
use nuts_tunnel::message::{ClientMsg, ProxyMsg, ServiceDef};
use nuts_tunnel::registry::{
    request_host, split_path, subdomain_of_host, Admission, FirstFrame, Registry, Route,
};
use nuts_tunnel::reply::Reply;
use nuts_tunnel::service::parse_service;
use nuts_tunnel::session::TunnelSession;
use nuts_tunnel::tunnel::{
    next_message, take_body, ClientFrame, Pending, RequestOutcome, TunnelAction, WriterEvent,
    MAX_BODY, PING_INTERVAL, QUEUE_LENGTH, REQUEST_TIMEOUT,
};

fn services(list: &[&str]) -> Vec<ServiceDef> {
    list.iter().map(|s| parse_service(s).unwrap()).collect()
}

fn register(token: &str, list: &[&str]) -> FirstFrame {
    FirstFrame::Message(ClientMsg::Register {
        token: token.to_string(),
        services: services(list),
    })
}

fn response(request_id: &str, status: u16) -> ClientMsg {
    ClientMsg::HttpResponse {
        request_id: request_id.to_string(),
        status,
        headers: vec![("X-Served-By".to_string(), "local".to_string())],
        body: b"hello".to_vec(),
    }
}

fn text_reply(reply: Reply) -> (u16, String) {
    match reply {
        Reply::Text { status, text } => (status, text),
        other => panic!("{other:?}"),
    }
}

fn route(service: &str, uri: &str) -> Route {
    Route { tunnel: 0, service: service.to_string(), uri: uri.to_string() }
}

#[test]
fn constants() {
    assert_eq!(MAX_BODY, 32 * 1024 * 1024);
    assert_eq!(REQUEST_TIMEOUT, 30);
    assert_eq!(PING_INTERVAL, 30);
    assert_eq!(QUEUE_LENGTH, 256);
}

#[test]
fn service_in_a_path() {
    let split = |path: &str| split_path(path);
    let named = |a: &str, b: &str| Some((a.to_string(), b.to_string()));
    assert_eq!(split("/shivvr/health"), named("shivvr", "/health"));
    assert_eq!(split("/shivvr/a/b"), named("shivvr", "/a/b"));
    assert_eq!(split("/shivvr/"), named("shivvr", "/"));
    assert_eq!(split("/shivvr"), named("shivvr", "/"));
    assert_eq!(split("//x"), named("", "/x"));
    assert_eq!(split("/"), None);
    assert_eq!(split(""), None);
    assert_eq!(split("shivvr/health"), None);
    assert_eq!(split("*"), None);
}

#[test]
fn subdomain_in_a_host() {
    assert_eq!(subdomain_of_host(Some("app.your-domain.com")), Some("app"));
    assert_eq!(subdomain_of_host(Some("app.localhost:8080")), Some("app"));
    assert_eq!(subdomain_of_host(Some("localhost:8080")), None);
    assert_eq!(subdomain_of_host(Some(".com")), None);
    assert_eq!(subdomain_of_host(Some("")), None);
    assert_eq!(subdomain_of_host(None), None);
}

#[test]
fn host_of_a_request() {
    assert_eq!(request_host(Some("app.a.com"), Some("api.a.com")), Some("app.a.com"));
    assert_eq!(request_host(Some(""), Some("api.a.com")), Some(""));
    assert_eq!(request_host(None, Some("api.a.com")), Some("api.a.com"));
    assert_eq!(request_host(None, None), None);
}

#[test]
fn right_token_is_let_in() {
    let registry = Registry::new("secret".to_string());
    match registry.on_first_frame(register("secret", &["app=1", "api=2"])) {
        Admission::Accepted { services, reply } => {
            assert_eq!(services.len(), 2);
            assert!(matches!(reply, ProxyMsg::Registered { ok: true, error: None }));
        }
        other => panic!("{other:?}"),
    }
}

#[test]
fn wrong_token_is_turned_away() {
    let registry = Registry::new("secret".to_string());
    for token in ["", "Secret", "secret ", "other"] {
        match registry.on_first_frame(register(token, &["app=1"])) {
            Admission::Rejected { reply: ProxyMsg::Registered { ok, error } } => {
                assert!(!ok);
                assert_eq!(error.as_deref(), Some("bad token"));
            }
            other => panic!("{other:?}"),
        }
    }
}

#[test]
fn without_a_secret_all_are_let_in() {
    let registry = Registry::new(String::new());
    for token in ["", "anything"] {
        assert!(matches!(
            registry.on_first_frame(register(token, &[])),
            Admission::Accepted { .. }
        ));
    }
}

#[test]
fn first_frame_must_register() {
    let registry = Registry::new(String::new());
    for frame in [
        FirstFrame::Message(ClientMsg::Pong),
        FirstFrame::Message(response("id", 200)),
        FirstFrame::Malformed,
        FirstFrame::NoText,
    ] {
        assert!(matches!(registry.on_first_frame(frame), Admission::Ignored));
    }
}

#[test]
fn routes_come_and_go() {
    let mut registry = Registry::new(String::new());
    let names = registry.register(&services(&["app=1", "api=2", "app=3"]), 7);
    assert_eq!(names, ["app", "api", "app"]);
    assert_eq!(registry.lookup("app"), Some(7));
    assert_eq!(registry.lookup("api"), Some(7));
    assert_eq!(registry.lookup("ap"), None);
    registry.register(&services(&["ocr=4"]), 8);
    registry.unregister(&names);
    assert_eq!(registry.lookup("app"), None);
    assert_eq!(registry.lookup("api"), None);
    assert_eq!(registry.lookup("ocr"), Some(8));
}

#[test]
fn later_tunnel_takes_over() {
    let mut registry = Registry::new(String::new());
    let first = registry.register(&services(&["app=1", "old=2"]), 1);
    registry.register(&services(&["app=3"]), 2);
    assert_eq!(registry.lookup("app"), Some(2));
    assert_eq!(registry.lookup("old"), Some(1));
    registry.unregister(&first);
    assert_eq!(registry.lookup("app"), None);
}

#[test]
fn requests_by_path() {
    let mut registry = Registry::new(String::new());
    registry.register(&services(&["shivvr=1"]), 5);
    let found = registry.route(None, "/shivvr/health", Some("full=1")).unwrap();
    assert_eq!(found.tunnel, 5);
    assert_eq!(found.service, "shivvr");
    assert_eq!(found.uri, "/health?full=1");
    let found = registry.route(Some("proxy.run.app"), "/shivvr", None).unwrap();
    assert_eq!(found.uri, "/");
    let found = registry.route(Some("localhost:8080"), "/shivvr/", Some("")).unwrap();
    assert_eq!(found.uri, "/?");
}

#[test]
fn requests_by_host() {
    let mut registry = Registry::new(String::new());
    registry.register(&services(&["app=1"]), 5);
    registry.register(&services(&["ocr=1"]), 6);
    let found = registry.route(Some("app.your-domain.com"), "/ocr/scan", Some("a=b")).unwrap();
    assert_eq!(found.tunnel, 5);
    assert_eq!(found.service, "app");
    assert_eq!(found.uri, "/ocr/scan?a=b");
    let found = registry.route(Some("app.your-domain.com"), "/", None).unwrap();
    assert_eq!(found.uri, "/");
}

#[test]
fn requests_that_lead_nowhere() {
    let mut registry = Registry::new(String::new());
    registry.register(&services(&["app=1"]), 5);
    assert_eq!(
        text_reply(registry.route(Some("gone.your-domain.com"), "/nope/x", None).unwrap_err()),
        (502, "no tunnel for 'nope'".to_string())
    );
    for path in ["/", "", "app"] {
        assert_eq!(
            text_reply(registry.route(None, path, Some("a=b")).unwrap_err()),
            (400, "missing service name in path \u{2014} use /service/...".to_string())
        );
    }
}

#[test]
fn life_of_a_tunnel() {
    let mut registry = Registry::new("secret".to_string());
    let mut session = TunnelSession::new(9);
    let reply = session.on_first_frame(&registry, register("secret", &["app=1"]));
    assert!(matches!(reply, Some(ProxyMsg::Registered { ok: true, .. })));
    assert_eq!(registry.lookup("app"), None);
    assert!(session.on_reply(&mut registry, true));
    assert_eq!(registry.lookup("app"), Some(9));
    assert!(session.on_reply(&mut registry, false));
    assert!(session.on_first_frame(&registry, register("secret", &["other=1"])).is_none());
    session.end(&mut registry);
    assert_eq!(registry.lookup("app"), None);
    assert!(!session.on_reply(&mut registry, true));
    assert_eq!(registry.lookup("app"), None);
}

#[test]
fn tunnel_that_is_turned_away() {
    let mut registry = Registry::new("secret".to_string());
    let mut session = TunnelSession::new(9);
    let reply = session.on_first_frame(&registry, register("wrong", &["app=1"]));
    assert!(matches!(reply, Some(ProxyMsg::Registered { ok: false, .. })));
    assert!(!session.on_reply(&mut registry, true));
    session.end(&mut registry);
    assert_eq!(registry.lookup("app"), None);
}

#[test]
fn tunnel_that_breaks_during_the_handshake() {
    let mut registry = Registry::new(String::new());
    registry.register(&services(&["app=1"]), 1);
    let mut session = TunnelSession::new(2);
    assert!(session.on_first_frame(&registry, register("", &["app=2"])).is_some());
    assert!(!session.on_reply(&mut registry, false));
    session.end(&mut registry);
    assert_eq!(registry.lookup("app"), Some(1));
    let mut session = TunnelSession::new(3);
    assert!(session.on_first_frame(&registry, FirstFrame::NoText).is_none());
    assert!(!session.on_reply(&mut registry, true));
}

#[test]
fn request_ids_are_random_uuids() {
    let mut pending = Pending::new();
    let mut seen: Vec<String> = Vec::new();
    for waiter in 0..200 {
        let (id, _) =
            pending.begin(&route("app", "/"), "GET".to_string(), &vec![], vec![], waiter);
        assert_eq!(id.len(), 36);
        for (i, c) in id.chars().enumerate() {
            match i {
                8 | 13 | 18 | 23 => assert_eq!(c, '-'),
                14 => assert_eq!(c, '4'),
                19 => assert!("89ab".contains(c)),
                _ => assert!("0123456789abcdef".contains(c)),
            }
        }
        assert!(!seen.contains(&id));
        seen.push(id);
    }
}

#[test]
fn request_message() {
    let mut pending = Pending::new();
    let headers = vec![
        ("accept".to_string(), b"*/*".to_vec()),
        ("x-raw".to_string(), vec![0x80]),
    ];
    let (id, message) = pending.begin(
        &route("app", "/health?full=1"),
        "PUT".to_string(),
        &headers,
        vec![9, 8],
        3,
    );
    match message {
        ProxyMsg::HttpRequest { request_id, subdomain, method, uri, headers, body } => {
            assert_eq!(request_id, id);
            assert_eq!(subdomain, "app");
            assert_eq!(method, "PUT");
            assert_eq!(uri, "/health?full=1");
            assert_eq!(headers[0], ("accept".to_string(), "*/*".to_string()));
            assert_eq!(headers[1], ("x-raw".to_string(), String::new()));
            assert_eq!(body, [9, 8]);
        }
        other => panic!("{other:?}"),
    }
}

#[test]
fn responses_find_their_requests() {
    let mut pending = Pending::new();
    for (id, waiter) in [("a", 1), ("b", 2)] {
        pending.begin_as(
            &id.to_string(),
            &route("app", "/"),
            "GET".to_string(),
            &vec![],
            vec![],
            waiter,
        );
    }
    match pending.on_frame(ClientFrame::Message(response("b", 201))) {
        TunnelAction::Deliver { waiter, response: ClientMsg::HttpResponse { request_id, status, body, .. } } => {
            assert_eq!(waiter, 2);
            assert_eq!(request_id, "b");
            assert_eq!(status, 201);
            assert_eq!(body, b"hello");
        }
        other => panic!("{other:?}"),
    }
    assert!(matches!(
        pending.on_frame(ClientFrame::Message(response("b", 201))),
        TunnelAction::Ignore
    ));
    assert!(matches!(
        pending.on_frame(ClientFrame::Message(response("c", 201))),
        TunnelAction::Ignore
    ));
    assert!(matches!(
        pending.on_frame(ClientFrame::Message(response("a", 200))),
        TunnelAction::Deliver { waiter: 1, .. }
    ));
}

#[test]
fn other_frames_of_a_client() {
    let mut pending = Pending::new();
    let again = ClientMsg::Register { token: String::new(), services: vec![] };
    for frame in [
        ClientFrame::Message(ClientMsg::Pong),
        ClientFrame::Message(again),
        ClientFrame::Malformed,
        ClientFrame::Other,
    ] {
        assert!(matches!(pending.on_frame(frame), TunnelAction::Ignore));
    }
    assert!(matches!(pending.on_frame(ClientFrame::Close), TunnelAction::Stop));
    assert!(matches!(pending.on_frame(ClientFrame::Ended), TunnelAction::Stop));
}

#[test]
fn answered_request() {
    let mut pending = Pending::new();
    match pending.finish("a", RequestOutcome::Answered(response("a", 201))).unwrap() {
        Reply::Relayed { status, headers, body } => {
            assert_eq!(status, 201);
            assert_eq!(headers["x-served-by"], "local");
            assert_eq!(body, b"hello");
        }
        other => panic!("{other:?}"),
    }
    match pending.finish("a", RequestOutcome::Answered(response("a", 42))).unwrap() {
        Reply::Relayed { status, .. } => assert_eq!(status, 502),
        other => panic!("{other:?}"),
    }
}

#[test]
fn requests_that_are_not_answered() {
    let mut pending = Pending::new();
    let mut ends = |outcome: RequestOutcome| {
        pending.begin_as(
            &"a".to_string(),
            &route("app", "/"),
            "GET".to_string(),
            &vec![],
            vec![],
            1,
        );
        let reply = text_reply(pending.finish("a", outcome).unwrap());
        let late = pending.on_frame(ClientFrame::Message(response("a", 200)));
        (reply.0, reply.1, matches!(late, TunnelAction::Ignore))
    };
    assert_eq!(ends(RequestOutcome::NotSent), (502, "tunnel send failed".to_string(), true));
    assert_eq!(
        ends(RequestOutcome::TimedOut),
        (504, "request timed out (30s)".to_string(), true)
    );
    assert_eq!(ends(RequestOutcome::Dropped), (502, "tunnel dropped".to_string(), false));
    assert_eq!(
        ends(RequestOutcome::Answered(ClientMsg::Pong)),
        (502, "unexpected response type".to_string(), false)
    );
}

#[test]
fn answer_with_too_many_headers() {
    let headers = (0..40_000).map(|i| (format!("x-{i}"), String::new())).collect();
    let message = ClientMsg::HttpResponse {
        request_id: "a".to_string(),
        status: 200,
        headers,
        body: vec![],
    };
    assert!(Pending::new().finish("a", RequestOutcome::Answered(message)).is_err());
}

#[test]
fn bodies() {
    assert_eq!(take_body(Some(vec![1, 2])).unwrap(), [1, 2]);
    assert_eq!(take_body(Some(vec![0; MAX_BODY])).unwrap().len(), MAX_BODY);
    for body in [None, Some(vec![0; MAX_BODY + 1])] {
        assert_eq!(
            text_reply(take_body(body).unwrap_err()),
            (413, "body too large (32MB max)".to_string())
        );
    }
}

#[test]
fn writer_of_a_tunnel() {
    assert!(matches!(next_message(WriterEvent::Tick), Some(ProxyMsg::Ping)));
    assert!(next_message(WriterEvent::QueueClosed).is_none());
    let queued = ProxyMsg::Registered { ok: true, error: None };
    assert!(matches!(
        next_message(WriterEvent::Queued(queued)),
        Some(ProxyMsg::Registered { ok: true, error: None })
    ));
}

#[test]
fn whole_trip() {
    let settings = Settings {
        proxy: "ws://proxy/nuts/ws".to_string(),
        token: "secret".to_string(),
        services: services(&["app=8080", "api=3000"]),
        reconnect_delay: 5,
        bind: "127.0.0.1".to_string(),
    };
    let mut registry = Registry::new("secret".to_string());
    let mut tunnel = TunnelSession::new(1);
    let mut pending = Pending::new();

    let (mut client, message) = Session::start(&settings);
    let reply = tunnel.on_first_frame(&registry, FirstFrame::Message(message)).unwrap();
    assert!(tunnel.on_reply(&mut registry, true));
    assert!(matches!(client.on_frame(ProxyFrame::Message(reply)), ClientAction::Opened));

    let found = registry.route(Some("api.your-domain.com"), "/v1/items", Some("n=3")).unwrap();
    let headers = vec![("Connection".to_string(), b"close".to_vec())];
    let (id, message) = pending.begin(&found, "GET".to_string(), &headers, vec![], 77);
    let request = match client.on_frame(ProxyFrame::Message(message)) {
        ClientAction::Forward(request) => request,
        other => panic!("{other:?}"),
    };
    assert_eq!(request.url, "http://127.0.0.1:3000/v1/items?n=3");
    assert!(request.headers.is_empty());

    let outcome = LocalOutcome::Response {
        status: 200,
        headers: vec![("Content-Type".to_string(), b"application/json".to_vec())],
        body: Some(b"[]".to_vec()),
    };
    let message = answer(request.request_id, outcome);
    let response = match pending.on_frame(ClientFrame::Message(message)) {
        TunnelAction::Deliver { waiter, response } => {
            assert_eq!(waiter, 77);
            response
        }
        other => panic!("{other:?}"),
    };
    match pending.finish(&id, RequestOutcome::Answered(response)).unwrap() {
        Reply::Relayed { status, headers, body } => {
            assert_eq!(status, 200);
            assert_eq!(headers["content-type"], "application/json");
            assert_eq!(body, b"[]");
        }
        other => panic!("{other:?}"),
    }
    tunnel.end(&mut registry);
    assert_eq!(registry.lookup("api"), None);
}

use nuts_tunnel::service::parse_service;

#[test]
fn service_argument() {
    let service = parse_service("shivvr=8080").unwrap();
    assert_eq!(service.subdomain, "shivvr");
    assert_eq!(service.port, 8080);
    assert_eq!(service.description, None);
}

#[test]
fn service_argument_with_sign() {
    assert_eq!(parse_service("ocr=+8888").unwrap().port, 8888);
}

#[test]
fn service_argument_without_subdomain() {
    let service = parse_service("=1").unwrap();
    assert_eq!(service.subdomain, "");
    assert_eq!(service.port, 1);
}

#[test]
fn service_argument_without_port() {
    assert_eq!(parse_service("app").unwrap_err(), "expected subdomain=port, got 'app'");
    assert_eq!(parse_service("").unwrap_err(), "expected subdomain=port, got ''");
}

#[test]
fn service_argument_with_bad_port() {
    assert_eq!(parse_service("app=").unwrap_err(), "invalid port: ''");
    assert_eq!(parse_service("app=http").unwrap_err(), "invalid port: 'http'");
    assert_eq!(parse_service("app=65536").unwrap_err(), "invalid port: '65536'");
    assert_eq!(parse_service("a=b=80").unwrap_err(), "invalid port: 'b=80'");
}

#[test]
fn service_argument_reads_back() {
    for port in [0u16, 9, 10, 80, 3000, 65535] {
        let service = parse_service(&format!("grafana={port}")).unwrap();
        assert_eq!(service.subdomain, "grafana");
        assert_eq!(service.port, port);
    }
}

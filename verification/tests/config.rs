use nuts_tunnel::config::{
    listen_port, shared_token, ConfigFile, ServiceEntry, Settings, SettingsError,
};
use nuts_tunnel::service::parse_service;

fn settings(proxy: &str, token: &str, services: &[&str]) -> Settings {
    Settings {
        proxy: proxy.to_string(),
        token: token.to_string(),
        services: services.iter().map(|s| parse_service(s).unwrap()).collect(),
        reconnect_delay: 5,
        bind: "127.0.0.1".to_string(),
    }
}

fn file(proxy_url: Option<&str>, token: Option<&str>) -> ConfigFile {
    ConfigFile {
        proxy_url: proxy_url.map(str::to_string),
        token: token.map(str::to_string),
        services: vec![
            ServiceEntry { subdomain: "api".to_string(), port: 3000, description: None },
            ServiceEntry {
                subdomain: "grafana".to_string(),
                port: 3001,
                description: Some("monitoring dashboard".to_string()),
            },
        ],
    }
}

#[test]
fn config_file_completes_the_settings() {
    let mut s = settings("", "", &["app=8080"]);
    s.merge(file(Some("wss://p/nuts/ws"), Some("secret")));
    assert_eq!(s.proxy, "wss://p/nuts/ws");
    assert_eq!(s.token, "secret");
    let names: Vec<&str> = s.services.iter().map(|s| s.subdomain.as_str()).collect();
    assert_eq!(names, ["app", "api", "grafana"]);
    assert_eq!(s.services[2].port, 3001);
    assert_eq!(s.services[2].description.as_deref(), Some("monitoring dashboard"));
    assert_eq!(s.reconnect_delay, 5);
    assert_eq!(s.bind, "127.0.0.1");
}

#[test]
fn command_line_stands() {
    let mut s = settings("ws://given", "given", &[]);
    s.merge(file(Some("wss://p"), Some("secret")));
    assert_eq!(s.proxy, "ws://given");
    assert_eq!(s.token, "given");
    let mut s = settings("", "", &[]);
    s.merge(file(None, None));
    assert_eq!(s.proxy, "");
    assert_eq!(s.token, "");
}

#[test]
fn settings_are_checked() {
    assert_eq!(settings("ws://p", "", &["app=1"]).check(), Ok(()));
    assert_eq!(settings("", "", &["app=1"]).check(), Err(SettingsError::NoProxy));
    assert_eq!(settings("", "", &[]).check(), Err(SettingsError::NoProxy));
    assert_eq!(settings("ws://p", "", &[]).check(), Err(SettingsError::NoServices));
}

#[test]
fn settings_messages() {
    assert_eq!(
        SettingsError::NoProxy.message(),
        "no proxy URL \u{2014} use --proxy, NUTS_PROXY_URL, or set proxy_url in config file"
    );
    assert_eq!(
        SettingsError::NoServices.message(),
        "no services to tunnel \u{2014} use --service or --config"
    );
}

#[test]
fn port_setting() {
    assert_eq!(listen_port(&None), 8080);
    assert_eq!(listen_port(&Some("9000".to_string())), 9000);
    assert_eq!(listen_port(&Some("".to_string())), 8080);
    assert_eq!(listen_port(&Some("http".to_string())), 8080);
    assert_eq!(listen_port(&Some("70000".to_string())), 8080);
}

#[test]
fn token_setting() {
    assert_eq!(shared_token(None), "");
    assert_eq!(shared_token(Some("secret".to_string())), "secret");
}

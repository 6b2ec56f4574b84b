//! What the two programs are told: the client's settings, from the command line
//! and from its config file, and the proxy's settings from the environment.
use vstd::prelude::*;

use crate::message::{opt_text, service_views, ServiceDef, ServiceView};
use crate::text::{parse_port, port_number};

verus! {

/// The port on which the proxy listens unless it is told otherwise.
pub const DEFAULT_PORT: u16 = 8080;

/// The client's settings.
#[derive(Debug)]
pub struct Settings {
    /// WebSocket URL of the proxy; empty while it is not known.
    pub proxy: String,
    /// The token that the proxy asks for.
    pub token: String,
    /// The services to expose.
    pub services: Vec<ServiceDef>,
    /// Seconds to wait before the first attempt to reconnect.
    pub reconnect_delay: u64,
    /// The address at which the local services are called.
    pub bind: String,
}

/// What [`Settings`] say.
pub struct SettingsView {
    pub proxy: Seq<char>,
    pub token: Seq<char>,
    pub services: Seq<ServiceView>,
    pub reconnect_delay: u64,
    pub bind: Seq<char>,
}

impl View for Settings {
    type V = SettingsView;

    open spec fn view(&self) -> SettingsView {
        SettingsView {
            proxy: self.proxy@,
            token: self.token@,
            services: service_views(self.services@),
            reconnect_delay: self.reconnect_delay,
            bind: self.bind@,
        }
    }
}

/// A service in the config file.
#[derive(Debug)]
pub struct ServiceEntry {
    pub subdomain: String,
    pub port: u16,
    pub description: Option<String>,
}

impl View for ServiceEntry {
    type V = ServiceView;

    open spec fn view(&self) -> ServiceView {
        ServiceView {
            subdomain: self.subdomain@,
            port: self.port,
            description: opt_text(self.description),
        }
    }
}

/// What the config file says.
#[derive(Debug)]
pub struct ConfigFile {
    pub proxy_url: Option<String>,
    pub token: Option<String>,
    pub services: Vec<ServiceEntry>,
}

/// The services of a config file, in order.
pub open spec fn entry_views(services: Seq<ServiceEntry>) -> Seq<ServiceView> {
    Seq::new(services.len(), |i: int| services[i]@)
}

/// A text that was given, or else the one that the config file has, if it has one.
pub open spec fn given_or(given: Seq<char>, from_file: Option<Seq<char>>) -> Seq<char> {
    match from_file {
        Some(text) if given.len() == 0 => text,
        _ => given,
    }
}

/// Settings completed by a config file: the file gives the proxy and the token
/// where they were not given, and its services come after those that were.
pub open spec fn merged(
    settings: SettingsView,
    proxy_url: Option<Seq<char>>,
    token: Option<Seq<char>>,
    services: Seq<ServiceView>,
) -> SettingsView {
    SettingsView {
        proxy: given_or(settings.proxy, proxy_url),
        token: given_or(settings.token, token),
        services: settings.services + services,
        reconnect_delay: settings.reconnect_delay,
        bind: settings.bind,
    }
}

/// Why the client cannot start.
#[derive(Debug, PartialEq, Eq, Structural)]
pub enum SettingsError {
    /// The URL of the proxy is not known.
    NoProxy,
    /// There is no service to expose.
    NoServices,
}

/// What keeps the client from starting: first of all a missing proxy, then missing
/// services.
pub open spec fn settings_problem(settings: SettingsView) -> Option<SettingsError> {
    if settings.proxy.len() == 0 {
        Some(SettingsError::NoProxy)
    } else if settings.services.len() == 0 {
        Some(SettingsError::NoServices)
    } else {
        None
    }
}

impl SettingsError {
    /// The message that tells the user what to do.
    pub open spec fn text(self) -> Seq<char> {
        match self {
            SettingsError::NoProxy => {
                "no proxy URL — use --proxy, NUTS_PROXY_URL, or set proxy_url in config file"@
            },
            SettingsError::NoServices => "no services to tunnel — use --service or --config"@,
        }
    }

    /// The message that tells the user what to do.
    pub fn message(&self) -> (res: String)
        ensures
            res@ == self.text(),
    {
        match self {
            SettingsError::NoProxy => {
                "no proxy URL — use --proxy, NUTS_PROXY_URL, or set proxy_url in config file".to_owned()
            },
            SettingsError::NoServices => {
                "no services to tunnel — use --service or --config".to_owned()
            },
        }
    }
}

impl Settings {
    /// Completes the settings by a config file.
    pub fn merge(&mut self, file: ConfigFile)
        ensures
            final(self)@ == merged(
                old(self)@,
                opt_text(file.proxy_url),
                opt_text(file.token),
                entry_views(file.services@),
            ),
    {
        if self.proxy.as_str().is_empty() {
            if let Some(url) = &file.proxy_url {
                self.proxy = url.clone();
            }
        }
        if self.token.as_str().is_empty() {
            if let Some(token) = &file.token {
                self.token = token.clone();
            }
        }
        let ghost given = service_views(self.services@);
        let ghost entries = entry_views(file.services@);
        assert(given =~= given + entries.take(0));
        for i in 0..file.services.len()
            invariant
                entries == entry_views(file.services@),
                service_views(self.services@) == given + entries.take(i as int),
                self.proxy@ == given_or(old(self).proxy@, opt_text(file.proxy_url)),
                self.token@ == given_or(old(self).token@, opt_text(file.token)),
                self.reconnect_delay == old(self).reconnect_delay,
                self.bind == old(self).bind,
        {
            let ghost before = self.services@;
            let entry = &file.services[i];
            let description = match &entry.description {
                Some(text) => Some(text.clone()),
                None => None,
            };
            let service = ServiceDef {
                subdomain: entry.subdomain.clone(),
                port: entry.port,
                description,
            };
            self.services.push(service);
            assert(service_views(self.services@) =~= service_views(before).push(
                entries[i as int],
            ));
            assert(given + entries.take(i + 1) =~= (given + entries.take(i as int)).push(
                entries[i as int],
            ));
        }
        assert(entries.take(file.services@.len() as int) =~= entries);
    }

    /// Makes sure that the client can start.
    pub fn check(&self) -> (res: Result<(), SettingsError>)
        ensures
            match res {
                Ok(_) => settings_problem(self@) is None,
                Err(problem) => settings_problem(self@) == Some(problem),
            },
    {
        if self.proxy.as_str().is_empty() {
            return Err(SettingsError::NoProxy);
        }
        if self.services.len() == 0 {
            return Err(SettingsError::NoServices);
        }
        Ok(())
    }
}

/// The port that a value of `PORT` stands for; the default where it stands for none.
pub open spec fn port_setting(value: Option<Seq<char>>) -> u16 {
    match value {
        Some(text) => match port_number(text) {
            Some(port) => port,
            None => DEFAULT_PORT,
        },
        None => DEFAULT_PORT,
    }
}

/// The port on which the proxy listens, from the value of `PORT`.
pub fn listen_port(value: &Option<String>) -> (res: u16)
    ensures
        res == port_setting(opt_text(*value)),
{
    match value {
        Some(text) => match parse_port(text.as_str()) {
            Some(port) => port,
            None => DEFAULT_PORT,
        },
        None => DEFAULT_PORT,
    }
}

/// The token that the proxy asks for when `NUTS_TOKEN` has this value.
pub open spec fn asked_token(value: Option<Seq<char>>) -> Seq<char> {
    match value {
        Some(token) => token,
        None => Seq::empty(),
    }
}

/// The token that the proxy asks for, from the value of `NUTS_TOKEN`: none is asked
/// for where it is not set.
pub fn shared_token(value: Option<String>) -> (res: String)
    ensures
        res@ == asked_token(opt_text(value)),
        res@ == match opt_text(value) {
            Some(token) => token,
            None => Seq::empty(),
        },
{
    match value {
        Some(token) => token,
        None => String::new(),
    }
}

/// What was given on the command line stands, whatever the config file says, and
/// the services given there come first.
pub proof fn command_line_comes_first(
    settings: SettingsView,
    proxy_url: Option<Seq<char>>,
    token: Option<Seq<char>>,
    services: Seq<ServiceView>,
)
    ensures
        settings.proxy.len() > 0 ==> merged(settings, proxy_url, token, services).proxy
            == settings.proxy,
        settings.token.len() > 0 ==> merged(settings, proxy_url, token, services).token
            == settings.token,
        merged(settings, proxy_url, token, services).services.take(settings.services.len() as int)
            == settings.services,
{
    assert((settings.services + services).take(settings.services.len() as int)
        =~= settings.services);
}

} // verus!

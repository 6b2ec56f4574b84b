//! Services named on the command line, as `subdomain=port`.
use vstd::prelude::*;

use crate::message::{ServiceDef, ServiceView};
use crate::text::{parse_port, split_once};
use crate::text::{decimal, first_at_is, port_number, port_round_trip, split_at_first};

verus! {

/// What a `subdomain=port` argument names, or what is wrong with it.
pub open spec fn service_argument(text: Seq<char>) -> Result<ServiceView, Seq<char>> {
    match split_at_first(text, '=') {
        None => Err("expected subdomain=port, got '"@ + text + "'"@),
        Some((subdomain, port)) => match port_number(port) {
            None => Err("invalid port: '"@ + port + "'"@),
            Some(port) => Ok(ServiceView { subdomain, port, description: None }),
        },
    }
}

/// The outcome of reading a service argument.
pub open spec fn parsed_service(res: Result<ServiceDef, String>) -> Result<ServiceView, Seq<char>> {
    match res {
        Ok(service) => Ok(service@),
        Err(message) => Err(message@),
    }
}

/// Reads a service from a `subdomain=port` argument.
pub fn parse_service(s: &str) -> (res: Result<ServiceDef, String>)
    ensures
        parsed_service(res) == service_argument(s@),
{
    match split_once(s, '=') {
        None => Err("expected subdomain=port, got '".to_owned().concat(s).concat("'")),
        Some((subdomain, port_text)) => match parse_port(port_text) {
            None => Err("invalid port: '".to_owned().concat(port_text).concat("'")),
            Some(port) => Ok(
                ServiceDef { subdomain: subdomain.to_owned(), port, description: None },
            ),
        },
    }
}

/// An argument made of a subdomain without an equals sign, an equals sign and a
/// port in decimal names that subdomain and that port.
pub proof fn service_argument_round_trip(subdomain: Seq<char>, port: u16)
    requires
        !subdomain.contains('='),
    ensures
        service_argument(subdomain + seq!['='] + decimal(port as nat)) == Ok::<
            ServiceView,
            Seq<char>,
        >(ServiceView { subdomain, port, description: None }),
{
    let text = subdomain + seq!['='] + decimal(port as nat);
    let i = subdomain.len() as int;
    assert forall|j: int| 0 <= j < i implies text[j] != '=' by {
        assert(text[j] == subdomain[j]);
        assert(subdomain.contains(subdomain[j]));
    }
    first_at_is(text, '=', 0, i);
    assert(text.take(i) =~= subdomain);
    assert(text.skip(i + 1) =~= decimal(port as nat));
    port_round_trip(port);
}

} // verus!

//! The pieces of HTTP that pass through the tunnel: methods, status codes and
//! headers.
//!
//! What is stated here of the `http` types is not proved; it is what the rest of
//! the library rests on.
use vstd::prelude::*;
use vstd::utf8::encode_utf8;

use axum::http::{HeaderMap, HeaderName, HeaderValue, StatusCode};

use crate::message::{header_texts, opt_text};
use crate::text::lower;
use crate::text::lower_is;

verus! {

/// The characters of an HTTP token: letters, digits and the signs that separate
/// nothing.
pub open spec fn token_char(c: char) -> bool {
    ||| 'a' <= c && c <= 'z'
    ||| 'A' <= c && c <= 'Z'
    ||| '0' <= c && c <= '9'
    ||| c == '!' || c == '#' || c == '$' || c == '%' || c == '&' || c == '\'' || c == '*'
    ||| c == '+' || c == '-' || c == '.' || c == '^' || c == '_' || c == '`' || c == '|'
    ||| c == '~'
}

/// An HTTP token: one or more token characters.
pub open spec fn token(text: Seq<char>) -> bool {
    text.len() > 0 && forall|i: int| 0 <= i < text.len() ==> token_char(#[trigger] text[i])
}

/// The method under which a request goes on: the one it came with where that is a
/// token, `GET` where it is not.
pub open spec fn sent_method(method: Seq<char>) -> Seq<char> {
    if token(method) {
        method
    } else {
        "GET"@
    }
}

/// The status with which a response goes on: the one it came with where that has
/// three digits, 502 (bad gateway) where it has not.
pub open spec fn sent_status(status: u16) -> u16 {
    if 100 <= status <= 999 {
        status
    } else {
        502
    }
}

/// The length of the longest header name there is.
pub const MAX_HEADER_NAME: usize = 65_535;

/// As long as a header map holds fewer names than this there is room for another.
pub const HEADER_MAP_ROOM: usize = 6_554;

/// A text that names a header.
pub open spec fn header_name_ok(text: Seq<char>) -> bool {
    token(text) && text.len() <= MAX_HEADER_NAME
}

/// A byte that a header value may hold: of the control characters, only the tab.
pub open spec fn header_value_byte(b: u8) -> bool {
    b == 9 || (b >= 32 && b != 127)
}

/// Bytes that make a header value.
pub open spec fn header_value_ok(bytes: Seq<u8>) -> bool {
    forall|i: int| 0 <= i < bytes.len() ==> header_value_byte(#[trigger] bytes[i])
}

/// A byte that stands for a visible ASCII character, a space or a tab.
pub open spec fn visible_byte(b: u8) -> bool {
    b == 9 || 32 <= b < 127
}

/// The text that the bytes of a header value spell, if all of them are visible.
pub open spec fn visible_text(bytes: Seq<u8>) -> Option<Seq<char>> {
    if forall|i: int| 0 <= i < bytes.len() ==> visible_byte(#[trigger] bytes[i]) {
        Some(Seq::new(bytes.len(), |i: int| bytes[i] as char))
    } else {
        None
    }
}

/// The text of a header value inside a message: empty where the value has none.
pub open spec fn value_text(bytes: Seq<u8>) -> Seq<char> {
    match visible_text(bytes) {
        Some(text) => text,
        None => Seq::empty(),
    }
}

/// The names and values of a list of headers whose values are bytes, in order.
pub open spec fn raw_headers(headers: Seq<(String, Vec<u8>)>) -> Seq<(Seq<char>, Seq<u8>)> {
    Seq::new(headers.len(), |i: int| (headers[i].0@, headers[i].1@))
}

/// Headers as a message carries them: every header, with the text of its value.
pub open spec fn carried_headers(headers: Seq<(Seq<char>, Seq<u8>)>) -> Seq<
    (Seq<char>, Seq<char>),
> {
    Seq::new(headers.len(), |i: int| (headers[i].0, value_text(headers[i].1)))
}

/// The headers that concern one connection only and are not passed on.
pub open spec fn hop_by_hop(name: Seq<char>) -> bool {
    ||| lower(name) == "host"@
    ||| lower(name) == "connection"@
    ||| lower(name) == "upgrade"@
    ||| lower(name) == "transfer-encoding"@
}

/// A header that is passed on to the local service.
pub open spec fn end_to_end() -> spec_fn((Seq<char>, Seq<char>)) -> bool {
    |header: (Seq<char>, Seq<char>)| !hop_by_hop(header.0)
}

/// A header that a response can carry.
pub open spec fn relayable(header: (Seq<char>, Seq<char>)) -> bool {
    header_name_ok(header.0) && header_value_ok(encode_utf8(header.1))
}

/// The headers of a response: the headers that it can carry, each in place of an
/// earlier one of the same name.
pub open spec fn relayed_headers(headers: Seq<(Seq<char>, Seq<char>)>) -> Map<
    Seq<char>,
    Seq<Seq<u8>>,
>
    decreases headers.len(),
{
    if headers.len() == 0 {
        Map::empty()
    } else {
        let before = relayed_headers(headers.drop_last());
        let (name, value) = headers.last();
        if relayable((name, value)) {
            before.insert(lower(name), seq![encode_utf8(value)])
        } else {
            before
        }
    }
}

/// Makes [`axum::http::HeaderMap`] known to the verifier, as an opaque type.
#[verifier::external_type_specification]
#[verifier::external_body]
#[verifier::reject_recursive_types(T)]
pub struct ExHeaderMap<T>(HeaderMap<T>);

/// Makes [`axum::http::HeaderValue`] known to the verifier, as an opaque type.
#[verifier::external_type_specification]
#[verifier::external_body]
pub struct ExHeaderValue(HeaderValue);

/// What a header map holds: under each name, the bytes of its values in order.
pub uninterp spec fn header_entries(headers: HeaderMap<HeaderValue>) -> Map<
    Seq<char>,
    Seq<Seq<u8>>,
>;

/// What a header map holds in which nothing is filed.
pub open spec fn no_headers() -> Map<Seq<char>, Seq<Seq<u8>>> {
    Map::empty()
}

/// Calls `HeaderMap::new`. Trusted: the new map holds nothing.
#[verifier::external_body]
fn header_map_new() -> (headers: HeaderMap<HeaderValue>)
    ensures
        header_entries(headers) == no_headers(),
{
    HeaderMap::new()
}

/// Calls `HeaderMap::try_insert`. Trusted: where it succeeds, `value` alone is
/// filed under `name`, and every other entry is as before. Where it fails, the map
/// has outgrown what it can hold: nothing has changed, and it holds
/// [`HEADER_MAP_ROOM`] names at the least.
///
/// The arguments are turned into a `HeaderName` and a `HeaderValue`, which
/// `requires` makes sure they can be.
#[verifier::external_body]
fn header_map_insert(headers: &mut HeaderMap<HeaderValue>, name: &str, value: &[u8]) -> (inserted:
    bool)
    requires
        header_name_ok(name@),
        lower(name@) == name@,
        header_value_ok(value@),
    ensures
        inserted ==> header_entries(*final(headers)) == header_entries(*old(headers)).insert(
            name@,
            seq![value@],
        ),
        !inserted ==> header_entries(*final(headers)) == header_entries(*old(headers)),
        !inserted ==> header_entries(*final(headers)).dom().len() >= HEADER_MAP_ROOM,
{
    let name = HeaderName::from_bytes(name.as_bytes()).unwrap();
    let value = HeaderValue::from_bytes(value).unwrap();
    headers.try_insert(name, value).is_ok()
}

/// Calls `str::parse::<reqwest::Method>` and `Method::as_str`. Trusted: a text is a
/// method exactly if it is a token, and the method is written as that text.
#[verifier::external_body]
fn parse_method(text: &str) -> (method: Option<String>)
    ensures
        opt_text(method) == if token(text@) {
            Some(text@)
        } else {
            None
        },
{
    match text.parse::<reqwest::Method>() {
        Ok(method) => Some(method.as_str().to_string()),
        Err(_) => None,
    }
}

/// Calls `StatusCode::from_u16`. Trusted: a number is a status code exactly if it
/// is from 100 to 999.
#[verifier::external_body]
fn parse_status(number: u16) -> (status: Option<u16>)
    ensures
        status == if 100 <= number <= 999 {
            Some(number)
        } else {
            None
        },
{
    match StatusCode::from_u16(number) {
        Ok(status) => Some(status.as_u16()),
        Err(_) => None,
    }
}

/// Calls `str::parse::<HeaderName>`. Trusted: a text names a header exactly if it is
/// a token of at most [`MAX_HEADER_NAME`] characters, and the name is that text with
/// its letters in lower case.
#[verifier::external_body]
fn parse_header_name(text: &str) -> (name: Option<String>)
    ensures
        opt_text(name) == if header_name_ok(text@) {
            Some(lower(text@))
        } else {
            None
        },
{
    match text.parse::<HeaderName>() {
        Ok(name) => Some(name.as_str().to_string()),
        Err(_) => None,
    }
}

/// The bytes that an optional vector holds.
pub open spec fn opt_bytes(bytes: Option<Vec<u8>>) -> Option<Seq<u8>> {
    match bytes {
        Some(b) => Some(b@),
        None => None,
    }
}

/// Calls `str::parse::<HeaderValue>`. Trusted: a text is a header value exactly if
/// its UTF-8 bytes may all stand in one, and the value is those bytes.
#[verifier::external_body]
fn parse_header_value(text: &str) -> (value: Option<Vec<u8>>)
    ensures
        opt_bytes(value) == if header_value_ok(encode_utf8(text@)) {
            Some(encode_utf8(text@))
        } else {
            None
        },
{
    match text.parse::<HeaderValue>() {
        Ok(value) => Some(value.as_bytes().to_vec()),
        Err(_) => None,
    }
}

/// Calls `HeaderValue::to_str` on the value made of `bytes`. Trusted: there is a
/// text exactly if every byte is visible, and it is those bytes. Bytes that make no
/// header value have none.
#[verifier::external_body]
fn header_value_text(bytes: &[u8]) -> (text: Option<String>)
    ensures
        opt_text(text) == visible_text(bytes@),
{
    match HeaderValue::from_bytes(bytes) {
        Ok(value) => match value.to_str() {
            Ok(text) => Some(text.to_string()),
            Err(_) => None,
        },
        Err(_) => None,
    }
}

/// The method under which a request goes on to the local service.
pub fn forwarded_method(method: &str) -> (res: String)
    ensures
        res@ == sent_method(method@),
{
    match parse_method(method) {
        Some(method) => method,
        None => "GET".to_owned(),
    }
}

/// The status with which a response goes on to the caller.
pub fn relayed_status(status: u16) -> (res: u16)
    ensures
        res == sent_status(status),
{
    match parse_status(status) {
        Some(status) => status,
        None => 502,
    }
}

/// The text of a header value inside a message.
pub fn header_text(value: &[u8]) -> (res: String)
    ensures
        res@ == value_text(value@),
{
    match header_value_text(value) {
        Some(text) => text,
        None => String::new(),
    }
}

/// Headers as a message carries them.
pub fn carry_headers(headers: &Vec<(String, Vec<u8>)>) -> (res: Vec<(String, String)>)
    ensures
        header_texts(res@) == carried_headers(raw_headers(headers@)),
{
    let mut res: Vec<(String, String)> = Vec::new();
    for i in 0..headers.len()
        invariant
            res@.len() == i,
            forall|j: int|
                0 <= j < i ==> (#[trigger] res@[j]).0@ == headers@[j].0@ && res@[j].1@
                    == value_text(headers@[j].1@),
    {
        let name = headers[i].0.clone();
        let text = header_text(headers[i].1.as_slice());
        res.push((name, text));
    }
    assert(header_texts(res@) =~= carried_headers(raw_headers(headers@)));
    res
}

/// Whether a header concerns one connection only.
///
/// Only ASCII letters are compared without regard to case: no other character has
/// a letter of these four names as its lower-case form.
pub fn is_hop_by_hop(name: &str) -> (res: bool)
    ensures
        res == hop_by_hop(name@),
{
    lower_is(name, "host") || lower_is(name, "connection") || lower_is(name, "upgrade")
        || lower_is(name, "transfer-encoding")
}

/// The headers that are passed on to the local service, in their order.
pub fn forwarded_headers(headers: &Vec<(String, String)>) -> (res: Vec<(String, String)>)
    ensures
        header_texts(res@) == header_texts(headers@).filter(end_to_end()),
{
    let ghost texts = header_texts(headers@);
    let mut res: Vec<(String, String)> = Vec::new();
    assert(texts.take(0).filter(end_to_end()) =~= Seq::empty()) by {
        reveal(Seq::filter);
    }
    assert(header_texts(res@) =~= Seq::empty());
    for i in 0..headers.len()
        invariant
            texts == header_texts(headers@),
            header_texts(res@) == texts.take(i as int).filter(end_to_end()),
    {
        let ghost before = res@;
        if !is_hop_by_hop(headers[i].0.as_str()) {
            res.push((headers[i].0.clone(), headers[i].1.clone()));
            assert(header_texts(res@) =~= header_texts(before).push(texts[i as int]));
        }
        proof {
            let next = texts.take(i + 1);
            assert(next.drop_last() =~= texts.take(i as int));
            assert(next.last() == texts[i as int]);
            reveal(Seq::filter);
        }
    }
    assert(texts.take(headers@.len() as int) =~= texts);
    res
}

/// A response has more headers than a header map can hold.
#[derive(Debug)]
pub struct HeadersOverflow;

/// The keys of the response headers so far are keys of the response headers.
proof fn relayed_headers_grow(headers: Seq<(Seq<char>, Seq<char>)>, k: int)
    requires
        0 <= k <= headers.len(),
    ensures
        relayed_headers(headers.take(k)).dom().finite(),
        relayed_headers(headers).dom().finite(),
        relayed_headers(headers.take(k)).dom().subset_of(relayed_headers(headers).dom()),
        relayed_headers(headers.take(k)).dom().len() <= relayed_headers(headers).dom().len(),
    decreases headers.len(),
{
    if headers.len() == 0 {
        assert(headers.take(k) =~= headers);
    } else {
        let init = headers.drop_last();
        relayed_headers_grow(init, if k < headers.len() { k } else { init.len() as int });
        if k < headers.len() {
            assert(init.take(k) =~= headers.take(k));
        } else {
            assert(headers.take(k) =~= headers);
        }
    }
    vstd::set_lib::lemma_len_subset(
        relayed_headers(headers.take(k)).dom(),
        relayed_headers(headers).dom(),
    );
}

/// The headers with which a response goes on to the caller. A header that no
/// response can carry is left out. The map has room for them if they have fewer
/// than [`HEADER_MAP_ROOM`] names.
pub fn response_headers(headers: &Vec<(String, String)>) -> (res: Result<
    HeaderMap<HeaderValue>,
    HeadersOverflow,
>)
    ensures
        match res {
            Ok(map) => header_entries(map) == relayed_headers(header_texts(headers@)),
            Err(_) => relayed_headers(header_texts(headers@)).dom().len() >= HEADER_MAP_ROOM,
        },
{
    let ghost texts = header_texts(headers@);
    let mut map = header_map_new();
    assert(texts.take(0) =~= seq![]);
    for i in 0..headers.len()
        invariant
            texts == header_texts(headers@),
            header_entries(map) == relayed_headers(texts.take(i as int)),
    {
        proof {
            let next = texts.take(i + 1);
            assert(next.drop_last() =~= texts.take(i as int));
            assert(next.last() == texts[i as int]);
        }
        let name = parse_header_name(headers[i].0.as_str());
        let value = parse_header_value(headers[i].1.as_str());
        match (name, value) {
            (Some(name), Some(value)) => {
                proof {
                    lower_of_lower(texts[i as int].0);
                }
                if !header_map_insert(&mut map, name.as_str(), value.as_slice()) {
                    proof {
                        relayed_headers_grow(texts, i as int);
                    }
                    return Err(HeadersOverflow);
                }
            },
            _ => {},
        }
    }
    assert(texts.take(headers@.len() as int) =~= texts);
    Ok(map)
}

/// A text in lower case is its own lower case, and a token in lower case is a token.
proof fn lower_of_lower(text: Seq<char>)
    ensures
        lower(lower(text)) == lower(text),
        header_name_ok(text) ==> header_name_ok(lower(text)),
{
    assert(lower(lower(text)) =~= lower(text));
}

/// Of the headers of one name that a response can carry, the last one goes on to
/// the caller, and no other.
pub proof fn last_header_is_relayed(headers: Seq<(Seq<char>, Seq<char>)>, i: int)
    requires
        0 <= i < headers.len(),
        relayable(headers[i]),
        forall|j: int|
            i < j < headers.len() && relayable(#[trigger] headers[j]) ==> lower(headers[j].0)
                != lower(headers[i].0),
    ensures
        relayed_headers(headers).contains_key(lower(headers[i].0)),
        relayed_headers(headers)[lower(headers[i].0)] == seq![encode_utf8(headers[i].1)],
    decreases headers.len(),
{
    let init = headers.drop_last();
    if i < init.len() {
        assert(init[i] == headers[i]);
        assert forall|j: int| i < j < init.len() && relayable(#[trigger] init[j]) implies lower(
            init[j].0,
        ) != lower(init[i].0) by {
            assert(init[j] == headers[j]);
        }
        last_header_is_relayed(init, i);
        assert(headers.last() == headers[headers.len() - 1]);
    }
}

/// Every header of the response to the caller is one of the service's response.
pub proof fn relayed_headers_were_sent(headers: Seq<(Seq<char>, Seq<char>)>, name: Seq<char>)
    requires
        relayed_headers(headers).contains_key(name),
    ensures
        exists|i: int|
            0 <= i < headers.len() && relayable(#[trigger] headers[i]) && lower(headers[i].0)
                == name && relayed_headers(headers)[name] == seq![encode_utf8(headers[i].1)],
    decreases headers.len(),
{
    if headers.len() > 0 {
        let last = headers.len() - 1;
        let init = headers.drop_last();
        if relayable(headers[last]) && lower(headers[last].0) == name {
            assert(relayed_headers(headers)[name] == seq![encode_utf8(headers[last].1)]);
        } else {
            relayed_headers_were_sent(init, name);
            let i = choose|i: int|
                0 <= i < init.len() && relayable(#[trigger] init[i]) && lower(init[i].0) == name
                    && relayed_headers(init)[name] == seq![encode_utf8(init[i].1)];
            assert(headers[i] == init[i]);
        }
    }
}

/// No header that concerns one connection only is passed on to the local service,
/// and every other one is.
pub proof fn only_end_to_end_headers_go_on(headers: Seq<(Seq<char>, Seq<char>)>)
    ensures
        forall|i: int|
            0 <= i < headers.filter(end_to_end()).len() ==> !hop_by_hop(
                (#[trigger] headers.filter(end_to_end())[i]).0,
            ),
        forall|k: int|
            0 <= k < headers.len() && !hop_by_hop((#[trigger] headers[k]).0) ==> headers.filter(
                end_to_end(),
            ).contains(headers[k]),
{
    let kept = headers.filter(end_to_end());
    assert forall|i: int| 0 <= i < kept.len() implies !hop_by_hop((#[trigger] kept[i]).0) by {
        headers.lemma_filter_pred(end_to_end(), i);
    }
    assert forall|k: int|
        0 <= k < headers.len() && !hop_by_hop((#[trigger] headers[k]).0) implies kept.contains(
        headers[k],
    ) by {
        headers.lemma_filter_contains(end_to_end(), k);
    }
}

} // verus!

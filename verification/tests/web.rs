use nuts_tunnel::web::{
    carry_headers, forwarded_headers, forwarded_method, header_text, is_hop_by_hop,
    relayed_status, response_headers,
};

fn pairs(list: &[(&str, &str)]) -> Vec<(String, String)> {
    list.iter().map(|(k, v)| (k.to_string(), v.to_string())).collect()
}

#[test]
fn methods_that_are_tokens_are_kept() {
    for method in ["GET", "POST", "QUERY", "PROPFIND", "get", "M-SEARCH", "x!#$%&'*+.^_`|~9"] {
        assert_eq!(forwarded_method(method), method);
    }
}

#[test]
fn other_methods_become_get() {
    for method in ["", " ", "PO ST", "GET/", "caf\u{e9}", "a\"b", "a(b", "a{b", "GET\n"] {
        assert_eq!(forwarded_method(method), "GET");
    }
}

#[test]
fn methods_by_character() {
    let signs = "!#$%&'*+-.^_`|~";
    for c in (0u8..=255).map(char::from) {
        let token = c.is_ascii_alphanumeric() || signs.contains(c);
        assert_eq!(forwarded_method(&format!("X{c}")) != "GET", token, "{c:?}");
    }
}

#[test]
fn statuses() {
    for status in [0u16, 1, 99, 1000, 65535] {
        assert_eq!(relayed_status(status), 502);
    }
    for status in [100u16, 200, 404, 599, 600, 999] {
        assert_eq!(relayed_status(status), status);
    }
}

#[test]
fn header_values_as_text() {
    assert_eq!(header_text(b"text/html; charset=utf-8"), "text/html; charset=utf-8");
    assert_eq!(header_text(b""), "");
    assert_eq!(header_text(b"a\tb"), "a\tb");
    assert_eq!(header_text("caf\u{e9}".as_bytes()), "");
    assert_eq!(header_text(b"a\x7fb"), "");
    assert_eq!(header_text(b"a\nb"), "");
}

#[test]
fn header_values_by_byte() {
    for b in 0..=255u8 {
        let visible = b == 9 || (32..127).contains(&b);
        let expected = if visible { format!("x{}", b as char) } else { String::new() };
        assert_eq!(header_text(&[b'x', b]), expected);
    }
}

#[test]
fn carried_headers_keep_their_order() {
    let headers = vec![
        ("b".to_string(), b"1".to_vec()),
        ("a".to_string(), vec![0xff]),
        ("b".to_string(), b"2".to_vec()),
    ];
    assert_eq!(carry_headers(&headers), pairs(&[("b", "1"), ("a", ""), ("b", "2")]));
}

#[test]
fn hop_by_hop_headers() {
    for name in ["host", "Host", "CONNECTION", "Upgrade", "Transfer-Encoding"] {
        assert!(is_hop_by_hop(name));
    }
    for name in ["", "hos", "hosts", "keep-alive", "content-length", "x-host", "te"] {
        assert!(!is_hop_by_hop(name));
    }
}

#[test]
fn no_other_character_has_one_of_these_letters_as_lower_case() {
    let letters = "hostconnectionupgradetransfer-encoding";
    for c in '\u{80}'..=char::MAX {
        let lower: String = c.to_lowercase().collect();
        assert!(lower.chars().count() != 1 || !letters.contains(&lower), "{c:?}");
    }
}

#[test]
fn hop_by_hop_headers_stay_behind() {
    let headers = pairs(&[
        ("Host", "app.example.com"),
        ("Accept", "*/*"),
        ("connection", "keep-alive"),
        ("Cookie", "a=1"),
        ("Transfer-Encoding", "chunked"),
        ("accept", "text/html"),
        ("UPGRADE", "h2c"),
    ]);
    assert_eq!(
        forwarded_headers(&headers),
        pairs(&[("Accept", "*/*"), ("Cookie", "a=1"), ("accept", "text/html")])
    );
    assert_eq!(forwarded_headers(&vec![]), vec![]);
}

#[test]
fn last_of_a_header_is_relayed() {
    let headers = pairs(&[("X-A", "1"), ("Set-Cookie", "a"), ("x-a", "2"), ("set-cookie", "b")]);
    let map = response_headers(&headers).unwrap();
    assert_eq!(map.len(), 2);
    assert_eq!(map.get_all("x-a").iter().count(), 1);
    assert_eq!(map["x-a"], "2");
    assert_eq!(map["set-cookie"], "b");
}

#[test]
fn bad_headers_are_left_out() {
    let long = "a".repeat(65_536);
    let headers = pairs(&[
        ("", "1"),
        ("a b", "1"),
        ("caf\u{e9}", "1"),
        ("a\"b", "1"),
        (&long, "1"),
        ("x-bad", "line\nbreak"),
        ("x-bad", "\u{7f}"),
        ("x-ok", "caf\u{e9}\t\u{4e2d}"),
        (&long[1..], "longest"),
    ]);
    let map = response_headers(&headers).unwrap();
    assert_eq!(map.len(), 2);
    assert_eq!(map["x-ok"].as_bytes(), "caf\u{e9}\t\u{4e2d}".as_bytes());
    assert_eq!(map[&long[1..]], "longest");
}

#[test]
fn a_bad_header_does_not_replace_a_good_one() {
    let map = response_headers(&pairs(&[("x-a", "1"), ("X-A", "\u{0}")])).unwrap();
    assert_eq!(map["x-a"], "1");
}

#[test]
fn many_headers_fit() {
    let headers: Vec<(String, String)> =
        (0..6_553).map(|i| (format!("x-{i}"), i.to_string())).collect();
    let map = response_headers(&headers).unwrap();
    assert_eq!(map.len(), 6_553);
    assert_eq!(map["x-6552"], "6552");
}

#[test]
fn too_many_headers_do_not_fit() {
    let headers: Vec<(String, String)> =
        (0..40_000).map(|i| (format!("x-{i}"), i.to_string())).collect();
    assert!(response_headers(&headers).is_err());
}

#[test]
fn repeated_headers_take_no_room() {
    let headers: Vec<(String, String)> =
        (0..40_000).map(|i| ("x-same".to_string(), i.to_string())).collect();
    let map = response_headers(&headers).unwrap();
    assert_eq!(map.len(), 1);
    assert_eq!(map["x-same"], "39999");
}

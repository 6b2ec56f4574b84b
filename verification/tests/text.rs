use nuts_tunnel::text::{lower_is, parse_port, port_text, split_once};

#[test]
fn splits_at_the_first_separator() {
    assert_eq!(split_once("a=b=c", '='), Some(("a", "b=c")));
    assert_eq!(split_once("=b", '='), Some(("", "b")));
    assert_eq!(split_once("a=", '='), Some(("a", "")));
    assert_eq!(split_once("abc", '='), None);
    assert_eq!(split_once("", '='), None);
}

#[test]
fn splits_between_characters_not_bytes() {
    assert_eq!(split_once("caf\u{e9}=\u{4e2d}", '='), Some(("caf\u{e9}", "\u{4e2d}")));
}

#[test]
fn splits_like_the_standard_library() {
    for text in ["", "=", "==", "a", "a=", "=a", "a=b", "a=b=c", "\u{1f980}=x"] {
        assert_eq!(split_once(text, '='), text.split_once('='));
    }
}

#[test]
fn reads_ports_like_the_standard_library() {
    for text in [
        "", "+", "-", "0", "1", "80", "+80", "-80", "++80", "080", "0000000000080", "65535",
        "65536", "655350", "99999999999999999999", " 80", "80 ", "8_0", "8a", "a8", "0x50",
        "\u{0665}", "+0", "-0", "80\n",
    ] {
        assert_eq!(parse_port(text), text.parse::<u16>().ok(), "{:?}", text);
    }
}

#[test]
fn writes_and_reads_every_port() {
    for port in 0..=u16::MAX {
        let text = port_text(port);
        assert_eq!(text, port.to_string());
        assert_eq!(parse_port(&text), Some(port));
    }
}

#[test]
fn compares_without_ascii_case() {
    assert!(lower_is("Transfer-Encoding", "transfer-encoding"));
    assert!(!lower_is("Transfer_Encoding", "transfer-encoding"));
    assert!(!lower_is("hos", "host"));
    assert!(!lower_is("hosts", "host"));
    assert!(!lower_is("h\u{d6}st", "h\u{f6}st"));
}

#[test]
fn lower_case_of_ascii() {
    for c in (0u8..=127).map(char::from) {
        assert!(lower_is(&c.to_string(), &c.to_ascii_lowercase().to_string()));
    }
    assert!(!lower_is("\u{212a}", "k"));
}

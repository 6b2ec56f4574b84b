use nuts_tunnel::body::{deserialize_bytes, serialize_bytes};

#[test]
fn body_text_is_base64() {
    assert_eq!(serialize_bytes(b""), "");
    assert_eq!(serialize_bytes(b"f"), "Zg==");
    assert_eq!(serialize_bytes(b"fo"), "Zm8=");
    assert_eq!(serialize_bytes(b"foo"), "Zm9v");
    assert_eq!(serialize_bytes(b"foobar"), "Zm9vYmFy");
    assert_eq!(serialize_bytes(&[0xfb, 0xff]), "+/8=");
}

#[test]
fn body_text_uses_the_whole_alphabet() {
    let mut bytes: Vec<u8> = Vec::new();
    for group in 0..16u32 {
        let first = group * 4;
        let bits = first << 18 | (first + 1) << 12 | (first + 2) << 6 | (first + 3);
        bytes.extend_from_slice(&bits.to_be_bytes()[1..]);
    }
    let alphabet = "ABCDEFGHIJKLMNOPQRSTUVWXYZabcdefghijklmnopqrstuvwxyz0123456789+/";
    assert_eq!(serialize_bytes(&bytes), alphabet);
    assert_eq!(deserialize_bytes(alphabet).unwrap(), bytes);
}

#[test]
fn body_texts_of_whole_groups_are_joined() {
    let all: Vec<u8> = (0..=255).rev().collect();
    for n in (0..=60).step_by(3) {
        for m in n..=70 {
            let joined = serialize_bytes(&all[..n]) + &serialize_bytes(&all[n..m]);
            assert_eq!(serialize_bytes(&all[..m]), joined);
        }
    }
    assert_eq!(serialize_bytes(b"fo") + &serialize_bytes(b"o"), "Zm8=bw==");
    assert!(deserialize_bytes("Zm8=bw==").is_err());
}

#[test]
fn different_bodies_have_different_texts() {
    let mut texts: Vec<String> = vec![serialize_bytes(&[])];
    for a in 0..=255u8 {
        texts.push(serialize_bytes(&[a]));
        texts.push(serialize_bytes(&[a, 0]));
        texts.push(serialize_bytes(&[a, 0, 0]));
        texts.push(serialize_bytes(&[0, a, 1]));
    }
    let count = texts.len();
    texts.sort();
    texts.dedup();
    assert_eq!(texts.len(), count);
}

#[test]
fn body_text_that_is_read_is_the_text_of_the_body() {
    let symbols: Vec<char> = "ABQgw8+/=-".chars().collect();
    for a in &symbols {
        for b in &symbols {
            for c in &symbols {
                for d in &symbols {
                    let text: String = [*a, *b, *c, *d].iter().collect();
                    if let Ok(body) = deserialize_bytes(&text) {
                        assert_eq!(serialize_bytes(&body), text);
                    }
                }
            }
        }
    }
    assert_eq!(deserialize_bytes("").unwrap(), b"");
    assert_eq!(deserialize_bytes("Zg==").unwrap(), b"f");
}

#[test]
fn body_text_reads_back() {
    let all: Vec<u8> = (0..=255).collect();
    for n in 0..=all.len() {
        let text = serialize_bytes(&all[..n]);
        assert_eq!(text.len(), n.div_ceil(3) * 4);
        assert_eq!(deserialize_bytes(&text).unwrap(), &all[..n]);
    }
}

#[test]
fn body_text_that_is_no_base64() {
    assert_eq!(deserialize_bytes("!!!!").unwrap_err(), "Invalid symbol 33, offset 0.");
    assert_eq!(deserialize_bytes("Zg").unwrap_err(), "Invalid padding");
    assert_eq!(deserialize_bytes("Z").unwrap_err(), "Invalid input length: 1");
    assert!(deserialize_bytes("Zh==").is_err());
    assert!(deserialize_bytes("Zm9=").is_err());
    assert!(deserialize_bytes("Zg=").is_err());
    assert!(deserialize_bytes("====").is_err());
    assert!(deserialize_bytes("Zg==Zg==").is_err());
    assert!(deserialize_bytes("Zm9\u{e9}").is_err());
    assert!(deserialize_bytes("Zm9v\n").is_err());
}

//! Body bytes as they travel inside JSON text: in base64, with the standard
//! alphabet and padding.
use vstd::prelude::*;

use base64::engine::general_purpose::STANDARD;
use base64::Engine;

verus! {

/// The character that stands for six bits: the capital letters, the small ones, the
/// digits, `+` and `/`, in this order.
pub open spec fn base64_symbol(bits: int) -> char {
    if bits < 26 {
        ('A' as int + bits) as char
    } else if bits < 52 {
        ('a' as int + bits - 26) as char
    } else if bits < 62 {
        ('0' as int + bits - 52) as char
    } else if bits == 62 {
        '+'
    } else {
        '/'
    }
}

/// The four characters for a group of one, two or three bytes: six bits each, from
/// the first byte on. Bits that are missing count as zeros, and a character that
/// would hold none of the group's bits is `=`.
pub open spec fn base64_group(group: Seq<u8>) -> Seq<char> {
    let first: int = group[0] as int;
    let second: int = if group.len() > 1 { group[1] as int } else { 0 };
    let third: int = if group.len() > 2 { group[2] as int } else { 0 };
    seq![
        base64_symbol(first / 4),
        base64_symbol(first % 4 * 16 + second / 16),
        if group.len() > 1 { base64_symbol(second % 16 * 4 + third / 64) } else { '=' },
        if group.len() > 2 { base64_symbol(third % 64) } else { '=' },
    ]
}

/// The base64 text of some bytes: that of each group of three, and that of what is
/// left over.
pub open spec fn base64_text(bytes: Seq<u8>) -> Seq<char>
    decreases bytes.len(),
{
    if bytes.len() == 0 {
        Seq::empty()
    } else if bytes.len() <= 3 {
        base64_group(bytes)
    } else {
        base64_group(bytes.take(3)) + base64_text(bytes.skip(3))
    }
}

/// `text` is the base64 text of some bytes.
pub open spec fn is_base64(text: Seq<char>) -> bool {
    exists|bytes: Seq<u8>| #[trigger] base64_text(bytes) == text
}

/// The message that says why a text is not the base64 text of any bytes.
pub uninterp spec fn base64_error(text: Seq<char>) -> Seq<char>;

/// The length of the base64 text of `n` bytes: four characters for every three
/// bytes or part of three.
pub open spec fn base64_len(n: nat) -> nat {
    (n + 2) / 3 * 4
}

/// Calls `Engine::encode` of the engine `base64::engine::general_purpose::STANDARD`.
/// Trusted: the text is the one that [`base64_text`] describes. The call panics when
/// the text would not fit in memory; such bytes are left out.
#[verifier::external_body]
fn encode(bytes: &[u8]) -> (text: String)
    requires
        base64_len(bytes@.len()) <= isize::MAX,
    ensures
        text@ == base64_text(bytes@),
{
    STANDARD.encode(bytes)
}

/// Calls `Engine::decode` of the engine `base64::engine::general_purpose::STANDARD`.
/// Trusted: the call succeeds exactly on the texts that [`base64_text`] gives for
/// some bytes, since this engine wants the padding in full and refuses bits left
/// over at the end that are not zero. It then returns bytes with that text. The
/// message of the `DecodeError` depends on the text alone; what it says is left open.
#[verifier::external_body]
fn decode(text: &str) -> (res: Result<Vec<u8>, String>)
    ensures
        res matches Ok(bytes) ==> base64_text(bytes@) == text@,
        res matches Err(message) ==> message@ == base64_error(text@),
        res is Err ==> !is_base64(text@),
{
    match STANDARD.decode(text) {
        Ok(bytes) => Ok(bytes),
        Err(error) => Err(error.to_string()),
    }
}

/// The text that stands for a body inside a message.
pub fn serialize_bytes(bytes: &[u8]) -> (text: String)
    requires
        base64_len(bytes@.len()) <= isize::MAX,
    ensures
        text@ == base64_text(bytes@),
        text@.len() == base64_len(bytes@.len()),
{
    proof {
        text_length(bytes@);
    }
    encode(bytes)
}

/// The body that a text inside a message stands for, or the message that says why
/// it stands for none.
pub fn deserialize_bytes(text: &str) -> (res: Result<Vec<u8>, String>)
    ensures
        res is Ok <==> is_base64(text@),
        match res {
            Ok(bytes) => base64_text(bytes@) == text@,
            Err(message) => message@ == base64_error(text@),
        },
        forall|bytes: Seq<u8>| #[trigger]
            base64_text(bytes) == text@ ==> (res matches Ok(body) && body@ == bytes),
{
    let res = decode(text);
    proof {
        assert forall|bytes: Seq<u8>| #[trigger]
            base64_text(bytes) == text@ implies res is Ok && res->Ok_0@ == bytes by {
            text_is_lossless(res->Ok_0@, bytes);
        }
    }
    res
}

/// The text of some bytes is as long as [`base64_len`] says.
pub proof fn text_length(bytes: Seq<u8>)
    ensures
        base64_text(bytes).len() == base64_len(bytes.len()),
    decreases bytes.len(),
{
    if bytes.len() > 3 {
        text_length(bytes.skip(3));
    }
}

/// Two bodies have the same text exactly if they are the same.
pub proof fn text_is_lossless(a: Seq<u8>, b: Seq<u8>)
    ensures
        base64_text(a) == base64_text(b) <==> a == b,
    decreases a.len(),
{
    if base64_text(a) == base64_text(b) {
        text_length(a);
        text_length(b);
        if a.len() > 0 {
            let (x, y) = (head(a), head(b));
            text_by_groups(a);
            text_by_groups(b);
            assert(base64_group(x) =~= base64_text(a).take(4));
            assert(base64_group(y) =~= base64_text(b).take(4));
            group_is_lossless(x, y);
            assert(base64_text(tail(a)) =~= base64_text(a).skip(4));
            assert(base64_text(tail(b)) =~= base64_text(b).skip(4));
            text_is_lossless(tail(a), tail(b));
            assert(a =~= x + tail(a));
            assert(b =~= y + tail(b));
        }
        assert(a =~= b);
    }
}

/// The text of bytes whose number is a multiple of three, followed by the text of
/// others, is the text of both together.
pub proof fn texts_are_joined(a: Seq<u8>, b: Seq<u8>)
    requires
        a.len() % 3 == 0,
    ensures
        base64_text(a + b) == base64_text(a) + base64_text(b),
    decreases a.len(),
{
    if a.len() == 0 {
        assert(a + b =~= b);
        assert(base64_text(a) + base64_text(b) =~= base64_text(b));
    } else {
        text_by_groups(a);
        text_by_groups(a + b);
        assert(head(a + b) =~= head(a));
        assert(tail(a + b) =~= tail(a) + b);
        texts_are_joined(tail(a), b);
        assert(base64_text(a + b) =~= base64_text(a) + base64_text(b));
    }
}

/// The first group of some bytes.
spec fn head(bytes: Seq<u8>) -> Seq<u8> {
    if bytes.len() <= 3 {
        bytes
    } else {
        bytes.take(3)
    }
}

/// What follows the first group.
spec fn tail(bytes: Seq<u8>) -> Seq<u8> {
    if bytes.len() <= 3 {
        Seq::empty()
    } else {
        bytes.skip(3)
    }
}

/// The text of some bytes is that of the first group and that of the rest.
proof fn text_by_groups(bytes: Seq<u8>)
    requires
        bytes.len() > 0,
    ensures
        base64_text(bytes) == base64_group(head(bytes)) + base64_text(tail(bytes)),
{
    assert(base64_text(Seq::<u8>::empty()) =~= Seq::<char>::empty());
    assert(base64_text(bytes) =~= base64_group(head(bytes)) + base64_text(tail(bytes)));
}

/// Different bits have different characters, and none of these is the padding.
proof fn symbols_differ(x: int, y: int)
    requires
        0 <= x < 64,
        0 <= y < 64,
    ensures
        base64_symbol(x) == base64_symbol(y) ==> x == y,
        base64_symbol(x) != '=',
{
}

/// Two groups with the same four characters are the same.
proof fn group_is_lossless(x: Seq<u8>, y: Seq<u8>)
    requires
        0 < x.len() <= 3,
        0 < y.len() <= 3,
        base64_group(x) == base64_group(y),
    ensures
        x == y,
{
    let (x0, y0) = (x[0] as int, y[0] as int);
    let x1: int = if x.len() > 1 { x[1] as int } else { 0 };
    let y1: int = if y.len() > 1 { y[1] as int } else { 0 };
    let x2: int = if x.len() > 2 { x[2] as int } else { 0 };
    let y2: int = if y.len() > 2 { y[2] as int } else { 0 };
    let (s, t) = (base64_group(x), base64_group(y));
    assert(s[0] == t[0] && s[1] == t[1] && s[2] == t[2] && s[3] == t[3]);
    symbols_differ(x0 / 4, y0 / 4);
    symbols_differ(x0 % 4 * 16 + x1 / 16, y0 % 4 * 16 + y1 / 16);
    symbols_differ(x1 % 16 * 4 + x2 / 64, y1 % 16 * 4 + y2 / 64);
    symbols_differ(y1 % 16 * 4 + y2 / 64, x1 % 16 * 4 + x2 / 64);
    symbols_differ(x2 % 64, y2 % 64);
    symbols_differ(y2 % 64, x2 % 64);
    assert(x.len() == y.len());
    assert(x0 == y0 && x1 == y1 && x2 == y2);
    assert(x =~= y);
}

} // verus!

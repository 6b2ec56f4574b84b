//! What the texts mean that the tunnel reads and writes: separators, letters,
//! numbers, service arguments, tokens and base64.
use vstd::prelude::*;

use crate::body::{base64_group, base64_symbol, base64_text, is_base64, text_length};
use crate::message::ServiceView;
use crate::service::service_argument;
use crate::text::{
    decimal, digits, first_at, first_at_is, lower, number, port_number, split_at_first,
};
use crate::web::{header_value_ok, token, visible_text};

verus! {

/// A text is split at its first separator: what was put together around a separator
/// comes apart again, and a text without one is not split.
pub proof fn text_is_split_at_the_first_separator(
    before: Seq<char>,
    sep: char,
    after: Seq<char>,
)
    requires
        !before.contains(sep),
    ensures
        split_at_first(before + seq![sep] + after, sep) == Some((before, after)),
        split_at_first(before, sep) is None,
{
    let text = before + seq![sep] + after;
    let i = before.len() as int;
    assert forall|j: int| 0 <= j < i implies text[j] != sep && before[j] != sep by {
        assert(before.contains(before[j]));
    }
    first_at_is(text, sep, 0, i);
    first_at_is(before, sep, 0, i);
    assert(text.take(i) =~= before);
    assert(text.skip(i + 1) =~= after);
}

/// The two parts of a split text and the separator make up the text, and the first
/// part has no separator. Where a text is not split, it has none at all.
pub proof fn split_text_is_put_together(text: Seq<char>, sep: char)
    ensures
        match split_at_first(text, sep) {
            Some((before, after)) => text == before + seq![sep] + after && !before.contains(sep),
            None => !text.contains(sep),
        },
{
    let i = first_at(text, sep, 0);
    search_stops_at_the_first(text, sep, 0);
    if i < text.len() {
        assert(text =~= text.take(i) + seq![sep] + text.skip(i + 1));
    }
}

proof fn search_stops_at_the_first(text: Seq<char>, sep: char, from: int)
    requires
        0 <= from <= text.len(),
    ensures
        from <= first_at(text, sep, from) <= text.len(),
        forall|j: int| from <= j < first_at(text, sep, from) ==> text[j] != sep,
        first_at(text, sep, from) < text.len() ==> text[first_at(text, sep, from)] == sep,
    decreases text.len() - from,
{
    if from < text.len() && text[from] != sep {
        search_stops_at_the_first(text, sep, from + 1);
    }
}

/// Lower case is a matter of the capital ASCII letters: each becomes the letter 32
/// places further on, and every other character stays.
pub proof fn capitals_become_small(text: Seq<char>, i: int)
    requires
        0 <= i < text.len(),
    ensures
        lower(text).len() == text.len(),
        65 <= text[i] as int <= 90 ==> lower(text)[i] as int == text[i] as int + 32,
        !(65 <= text[i] as int <= 90) ==> lower(text)[i] == text[i],
{
}

/// A port is read digit by digit: one more digit makes ten times the port and the
/// digit, as long as that is a port. Nothing else but a plus sign in front may stand
/// in it, and a plus sign changes nothing.
pub proof fn port_is_read_by_digits(text: Seq<char>, c: char)
    ensures
        port_number(seq![]) is None,
        port_number(seq!['+'] + seq![c]) == port_number(seq![c]),
        match port_number(seq![c]) {
            Some(port) => 48 <= c as int <= 57 && port == c as int - 48,
            None => !(48 <= c as int <= 57),
        },
        text.len() > 0 && text != seq!['+'] ==> match (
            port_number(text),
            port_number(text.push(c)),
        ) {
            (Some(port), Some(longer)) => 48 <= c as int <= 57 && longer == port * 10 + (c as int
                - 48),
            (Some(port), None) => !(48 <= c as int <= 57) || port * 10 + (c as int - 48) > 65535,
            (None, Some(_)) => false,
            (None, None) => true,
        },
        text.len() > 0 && text[0] != '+' ==> port_number(seq!['+'] + text) == port_number(text),
{
    let one = seq![c];
    assert(one.skip(1) =~= Seq::<char>::empty());
    assert(one.drop_last() =~= Seq::<char>::empty());
    assert(number(one.drop_last()) == 0);
    assert(number(one) == number(one.drop_last()) * 10 + ((c as nat) - ('0' as nat)) as nat);
    if 48 <= c as int <= 57 {
        assert(digits(one));
    } else {
        assert(one[0] == c);
    }
    assert((seq!['+'] + one).skip(1) =~= one);
    if text.len() > 0 {
        let signed = text[0] == '+';
        let rest = if signed { text.skip(1) } else { text };
        let longer = text.push(c);
        let longer_rest = if signed { longer.skip(1) } else { longer };
        assert(longer[0] == text[0]);
        assert(longer_rest =~= rest.push(c));
        assert(longer_rest.drop_last() =~= rest);
        assert(longer_rest.last() == c);
        if signed && text.len() == 1 {
            assert(text =~= seq!['+']);
        }
        if digits(rest) && 48 <= c as int <= 57 {
            assert(digits(longer_rest));
        }
        if digits(longer_rest) {
            assert(longer_rest[rest.len() as int] == c);
            assert forall|i: int| 0 <= i < rest.len() implies crate::text::digit(
                #[trigger] rest[i],
            ) by {
                assert(longer_rest[i] == rest[i]);
            }
        }
        assert((seq!['+'] + text).skip(1) =~= text);
    }
}

/// A number is written in decimal: one digit below ten, and one more digit behind for
/// every ten times.
pub proof fn number_is_written_in_digits(n: nat, d: nat)
    requires
        d < 10,
    ensures
        decimal(d) == seq![(48 + d) as char],
        n > 0 ==> decimal(n * 10 + d) == decimal(n).push((48 + d) as char),
{
}

/// A service argument is a subdomain, an equals sign and a port: what stands before
/// the first equals sign is the subdomain, the rest is read as a port, and each
/// mistake is reported with the text that is wrong.
pub proof fn service_argument_is_subdomain_and_port(subdomain: Seq<char>, port: Seq<char>)
    requires
        !subdomain.contains('='),
    ensures
        match (port_number(port), service_argument(subdomain + seq!['='] + port)) {
            (Some(number), Ok(service)) => {
                &&& service.subdomain == subdomain
                &&& service.port == number
                &&& service.description is None
            },
            (None, Err(message)) => message == "invalid port: '"@ + port + "'"@,
            _ => false,
        },
        service_argument(subdomain) == Err::<ServiceView, Seq<char>>(
            "expected subdomain=port, got '"@ + subdomain + "'"@,
        ),
{
    text_is_split_at_the_first_separator(subdomain, '=', port);
}

/// A character that may stand in a method or in a header name: an ASCII letter, a
/// digit, or one of fifteen signs.
pub open spec fn word_char(c: char) -> bool {
    ||| 65 <= c as int <= 90
    ||| 97 <= c as int <= 122
    ||| 48 <= c as int <= 57
    ||| "!#$%&'*+-.^_`|~"@.contains(c)
}

/// A token is one or more letters, digits and signs.
pub proof fn token_is_made_of_word_characters(text: Seq<char>)
    ensures
        token(text) <==> text.len() > 0 && forall|i: int|
            0 <= i < text.len() ==> word_char(#[trigger] text[i]),
{
    assert forall|c: char| #[trigger] word_char(c) <==> crate::web::token_char(c) by {
        sign_is_a_token_character(c);
    }
    if text.len() > 0 && forall|i: int| 0 <= i < text.len() ==> word_char(#[trigger] text[i]) {
        assert forall|i: int| 0 <= i < text.len() implies crate::web::token_char(
            #[trigger] text[i],
        ) by {
            assert(word_char(text[i]));
        }
    }
}

proof fn sign_is_a_token_character(c: char)
    ensures
        word_char(c) <==> crate::web::token_char(c),
{
    let signs = "!#$%&'*+-.^_`|~"@;
    reveal_strlit("!#$%&'*+-.^_`|~");
    assert(signs.len() == 15);
    if signs.contains(c) {
        let i = signs.index_of(c);
        assert(0 <= i < 15 && signs[i] == c);
        assert(i == 0 || i == 1 || i == 2 || i == 3 || i == 4 || i == 5 || i == 6 || i == 7 || i
            == 8 || i == 9 || i == 10 || i == 11 || i == 12 || i == 13 || i == 14);
    }
    assert(signs[0] == '!' && signs[1] == '#' && signs[2] == '$' && signs[3] == '%' && signs[4]
        == '&' && signs[5] == '\'' && signs[6] == '*' && signs[7] == '+');
    assert(signs[8] == '-' && signs[9] == '.' && signs[10] == '^' && signs[11] == '_' && signs[12]
        == '`' && signs[13] == '|' && signs[14] == '~');
}

/// The bytes of a header value have a text exactly if each is a tab, a space or a
/// visible ASCII character, and the text has the same codes. A value may also hold
/// bytes beyond ASCII, but no control characters other than the tab.
pub proof fn header_value_is_spelled_by_its_bytes(bytes: Seq<u8>)
    ensures
        match visible_text(bytes) {
            Some(text) => {
                &&& text.len() == bytes.len()
                &&& forall|i: int|
                    0 <= i < bytes.len() ==> (#[trigger] text[i]) as int == bytes[i] && (bytes[i]
                        == 9 || 32 <= bytes[i] <= 126)
            },
            None => exists|i: int|
                0 <= i < bytes.len() && (#[trigger] bytes[i]) != 9 && !(32 <= bytes[i] <= 126),
        },
        header_value_ok(bytes) <==> forall|i: int|
            0 <= i < bytes.len() ==> (#[trigger] bytes[i]) == 9 || 32 <= bytes[i] <= 126
                || bytes[i] >= 128,
{
    if visible_text(bytes) is None {
        let i = choose|i: int|
            0 <= i < bytes.len() && !crate::web::visible_byte(#[trigger] bytes[i]);
        assert(bytes[i] != 9 && !(32 <= bytes[i] <= 126));
    }
}

/// The sixty-four characters of base64, in the order of the bits that they stand for.
pub open spec fn base64_alphabet() -> Seq<char> {
    "ABCDEFGHIJKLMNOPQRSTUVWXYZabcdefghijklmnopqrstuvwxyz0123456789+/"@
}

/// Four characters of the alphabet stand for three bytes, three and a padding for
/// two, two and two paddings for one: the bits of the characters in a row are the
/// bits of the bytes in a row, and what is left over is zero.
pub proof fn characters_stand_for_bits(a: int, b: int, c: int, d: int)
    requires
        0 <= a < 64,
        0 <= b < 64,
        0 <= c < 64,
        0 <= d < 64,
    ensures
        base64_text(
            seq![
                (a * 4 + b / 16) as u8,
                (b % 16 * 16 + c / 4) as u8,
                (c % 4 * 64 + d) as u8,
            ],
        ) == seq![
            base64_alphabet()[a],
            base64_alphabet()[b],
            base64_alphabet()[c],
            base64_alphabet()[d],
        ],
        c % 4 == 0 ==> base64_text(
            seq![(a * 4 + b / 16) as u8, (b % 16 * 16 + c / 4) as u8],
        ) == seq![base64_alphabet()[a], base64_alphabet()[b], base64_alphabet()[c], '='],
        b % 16 == 0 ==> base64_text(seq![(a * 4 + b / 16) as u8]) == seq![
            base64_alphabet()[a],
            base64_alphabet()[b],
            '=',
            '=',
        ],
{
    symbol_is_in_the_alphabet(a);
    symbol_is_in_the_alphabet(b);
    symbol_is_in_the_alphabet(c);
    symbol_is_in_the_alphabet(d);
    let first = (a * 4 + b / 16) as u8;
    let second = (b % 16 * 16 + c / 4) as u8;
    let third = (c % 4 * 64 + d) as u8;
    assert(first == a * 4 + b / 16 && second == b % 16 * 16 + c / 4 && third == c % 4 * 64 + d);
    assert(first as int / 4 == a && first as int % 4 == b / 16);
    assert(second as int / 16 == b % 16 && second as int % 16 == c / 4);
    assert(third as int / 64 == c % 4 && third as int % 64 == d);
    assert(base64_group(seq![first, second, third]) =~= base64_text(seq![first, second, third]));
    if c % 4 == 0 {
        assert(base64_group(seq![first, second]) =~= base64_text(seq![first, second]));
    }
    if b % 16 == 0 {
        assert(base64_group(seq![first]) =~= base64_text(seq![first]));
    }
}

/// The text of any bytes is base64, and nothing else is: what is base64 comes in
/// groups of four characters, and there are bytes whose text it is.
pub proof fn text_of_bytes_is_base64(bytes: Seq<u8>, text: Seq<char>)
    ensures
        is_base64(base64_text(bytes)),
        is_base64(text) ==> text.len() % 4 == 0 && exists|read: Seq<u8>| #[trigger]
            base64_text(read) == text,
{
    if is_base64(text) {
        text_length(choose|read: Seq<u8>| #[trigger] base64_text(read) == text);
    }
}

proof fn symbol_is_in_the_alphabet(x: int)
    requires
        0 <= x < 64,
    ensures
        base64_symbol(x) == base64_alphabet()[x],
{
    reveal_strlit("ABCDEFGHIJKLMNOPQRSTUVWXYZabcdefghijklmnopqrstuvwxyz0123456789+/");
    let s = base64_alphabet();
    assert(s[0] == 'A' && s[1] == 'B' && s[2] == 'C' && s[3] == 'D' && s[4] == 'E' && s[5] == 'F');
    assert(s[6] == 'G' && s[7] == 'H' && s[8] == 'I' && s[9] == 'J' && s[10] == 'K');
    assert(s[11] == 'L' && s[12] == 'M' && s[13] == 'N' && s[14] == 'O' && s[15] == 'P');
    assert(s[16] == 'Q' && s[17] == 'R' && s[18] == 'S' && s[19] == 'T' && s[20] == 'U');
    assert(s[21] == 'V' && s[22] == 'W' && s[23] == 'X' && s[24] == 'Y' && s[25] == 'Z');
    assert(s[26] == 'a' && s[27] == 'b' && s[28] == 'c' && s[29] == 'd' && s[30] == 'e');
    assert(s[31] == 'f' && s[32] == 'g' && s[33] == 'h' && s[34] == 'i' && s[35] == 'j');
    assert(s[36] == 'k' && s[37] == 'l' && s[38] == 'm' && s[39] == 'n' && s[40] == 'o');
    assert(s[41] == 'p' && s[42] == 'q' && s[43] == 'r' && s[44] == 's' && s[45] == 't');
    assert(s[46] == 'u' && s[47] == 'v' && s[48] == 'w' && s[49] == 'x' && s[50] == 'y');
    assert(s[51] == 'z' && s[52] == '0' && s[53] == '1' && s[54] == '2' && s[55] == '3');
    assert(s[56] == '4' && s[57] == '5' && s[58] == '6' && s[59] == '7' && s[60] == '8');
    assert(s[61] == '9' && s[62] == '+' && s[63] == '/');
    if x < 16 {
        assert(x == 0 || x == 1 || x == 2 || x == 3 || x == 4 || x == 5 || x == 6 || x == 7 || x
            == 8 || x == 9 || x == 10 || x == 11 || x == 12 || x == 13 || x == 14 || x == 15);
    } else if x < 32 {
        assert(x == 16 || x == 17 || x == 18 || x == 19 || x == 20 || x == 21 || x == 22 || x == 23
            || x == 24 || x == 25 || x == 26 || x == 27 || x == 28 || x == 29 || x == 30 || x
            == 31);
    } else if x < 48 {
        assert(x == 32 || x == 33 || x == 34 || x == 35 || x == 36 || x == 37 || x == 38 || x == 39
            || x == 40 || x == 41 || x == 42 || x == 43 || x == 44 || x == 45 || x == 46 || x
            == 47);
    } else {
        assert(x == 48 || x == 49 || x == 50 || x == 51 || x == 52 || x == 53 || x == 54 || x == 55
            || x == 56 || x == 57 || x == 58 || x == 59 || x == 60 || x == 61 || x == 62 || x
            == 63);
    }
}

} // verus!

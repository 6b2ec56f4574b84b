//! Text as the tunnel reads and writes it: splitting at a separator, comparing
//! without regard to ASCII case, and decimal numbers.
use vstd::prelude::*;

verus! {

/// The position of the first `sep` in `text` at or after `from`, or the length of
/// `text` when there is none.
pub open spec fn first_at(text: Seq<char>, sep: char, from: int) -> int
    decreases text.len() - from,
{
    if from >= text.len() {
        text.len() as int
    } else if text[from] == sep {
        from
    } else {
        first_at(text, sep, from + 1)
    }
}

/// What stands before and after the first `sep` in `text`, if `text` has one.
pub open spec fn split_at_first(text: Seq<char>, sep: char) -> Option<(Seq<char>, Seq<char>)> {
    let i = first_at(text, sep, 0);
    if i < text.len() {
        Some((text.take(i), text.skip(i + 1)))
    } else {
        None
    }
}

/// The lower-case form of an ASCII letter; any other character is itself.
pub open spec fn lower_char(c: char) -> char {
    if 'A' <= c && c <= 'Z' {
        ((c as u8) + 32) as char
    } else {
        c
    }
}

/// A text with its ASCII letters in lower case.
pub open spec fn lower(text: Seq<char>) -> Seq<char> {
    Seq::new(text.len(), |i: int| lower_char(text[i]))
}

/// A decimal digit.
pub open spec fn digit(c: char) -> bool {
    '0' <= c && c <= '9'
}

/// Nothing but decimal digits.
pub open spec fn digits(text: Seq<char>) -> bool {
    forall|i: int| 0 <= i < text.len() ==> digit(#[trigger] text[i])
}

/// The number that a run of decimal digits writes.
pub open spec fn number(text: Seq<char>) -> nat
    decreases text.len(),
{
    if text.len() == 0 {
        0
    } else {
        number(text.drop_last()) * 10 + ((text.last() as nat) - ('0' as nat)) as nat
    }
}

/// The port that a text writes: decimal digits, after a plus sign or none, whose
/// number is at most 65535.
pub open spec fn port_number(text: Seq<char>) -> Option<u16> {
    let rest = if text.len() > 0 && text[0] == '+' {
        text.skip(1)
    } else {
        text
    };
    if rest.len() > 0 && digits(rest) && number(rest) <= u16::MAX {
        Some(number(rest) as u16)
    } else {
        None
    }
}

/// The character for a number below ten.
pub open spec fn digit_char(n: nat) -> char {
    (('0' as nat) + n) as char
}

/// A number in decimal, without leading zeros.
pub open spec fn decimal(n: nat) -> Seq<char>
    decreases n,
{
    if n < 10 {
        seq![digit_char(n)]
    } else {
        decimal(n / 10).push(digit_char(n % 10))
    }
}

/// A position at which `sep` stands for the first time is where the search ends.
pub proof fn first_at_is(text: Seq<char>, sep: char, from: int, i: int)
    requires
        0 <= from <= i <= text.len(),
        forall|j: int| from <= j < i ==> text[j] != sep,
        i < text.len() ==> text[i] == sep,
    ensures
        first_at(text, sep, from) == i,
    decreases i - from,
{
    if from < i {
        first_at_is(text, sep, from + 1, i);
    }
}

/// The position of the first `sep` in `text`.
fn find_first(text: &str, sep: char) -> (res: Option<usize>)
    ensures
        match res {
            Some(i) => i < text@.len() && i == first_at(text@, sep, 0),
            None => first_at(text@, sep, 0) == text@.len(),
        },
{
    let n: usize = text.unicode_len();
    let mut i: usize = 0;
    for c in it: text.chars()
        invariant
            it.seq() == text@,
            n == text@.len(),
            i == it.index(),
            forall|j: int| 0 <= j < i ==> text@[j] != sep,
    {
        if c == sep {
            proof {
                first_at_is(text@, sep, 0, i as int);
            }
            return Some(i);
        }
        i += 1;
    }
    proof {
        first_at_is(text@, sep, 0, text@.len() as int);
    }
    None
}

/// Splits `text` at the first `sep`.
pub fn split_once<'a>(text: &'a str, sep: char) -> (res: Option<(&'a str, &'a str)>)
    ensures
        match res {
            Some((before, after)) => split_at_first(text@, sep) == Some((before@, after@)),
            None => split_at_first(text@, sep) is None,
        },
{
    match find_first(text, sep) {
        Some(i) => {
            let n: usize = text.unicode_len();
            let before = text.substring_char(0, i);
            let after = text.substring_char(i + 1, n);
            assert(before@ =~= text@.take(i as int));
            assert(after@ =~= text@.skip(i + 1));
            Some((before, after))
        },
        None => None,
    }
}

/// The lower-case form of an ASCII letter; any other character is itself.
fn to_lower(c: char) -> (res: char)
    ensures
        res == lower_char(c),
{
    if 'A' <= c && c <= 'Z' {
        (c as u8 + 32) as char
    } else {
        c
    }
}

/// Whether `text`, its ASCII letters in lower case, is `wanted`.
pub fn lower_is(text: &str, wanted: &str) -> (res: bool)
    ensures
        res == (lower(text@) == wanted@),
{
    let n: usize = wanted.unicode_len();
    if text.unicode_len() != n {
        assert(lower(text@).len() != wanted@.len());
        return false;
    }
    let mut i: usize = 0;
    for c in it: text.chars()
        invariant
            it.seq() == text@,
            n == text@.len(),
            n == wanted@.len(),
            i == it.index(),
            forall|j: int| 0 <= j < i ==> lower_char(text@[j]) == wanted@[j],
    {
        if to_lower(c) != wanted.get_char(i) {
            assert(lower(text@)[i as int] != wanted@[i as int]);
            return false;
        }
        i += 1;
    }
    assert(lower(text@) =~= wanted@);
    true
}

/// Reading on through more digits never makes the number smaller.
proof fn number_grows(text: Seq<char>, k: int)
    requires
        0 <= k <= text.len(),
    ensures
        number(text.take(k)) <= number(text),
    decreases text.len() - k,
{
    if k < text.len() {
        number_grows(text, k + 1);
        assert(text.take(k + 1).drop_last() =~= text.take(k));
    } else {
        assert(text.take(k) =~= text);
    }
}

/// Reads a port from its decimal text.
pub fn parse_port(text: &str) -> (res: Option<u16>)
    ensures
        res == port_number(text@),
{
    let n: usize = text.unicode_len();
    let start: usize = if n > 0 && text.get_char(0) == '+' {
        1
    } else {
        0
    };
    let rest = text.substring_char(start, n);
    let ghost expected = if text@.len() > 0 && text@[0] == '+' {
        text@.skip(1)
    } else {
        text@
    };
    assert(rest@ =~= expected);
    if start == n {
        return None;
    }
    let mut value: u32 = 0;
    let ghost mut k: int = 0;
    assert(rest@.take(0) =~= Seq::<char>::empty());
    for c in it: rest.chars()
        invariant
            it.seq() == rest@,
            k == it.index(),
            digits(rest@.take(k)),
            value == number(rest@.take(k)),
            value <= u16::MAX,
            expected == rest@,
            port_number(text@) == (if rest@.len() > 0 && digits(rest@) && number(rest@)
                <= u16::MAX {
                Some(number(rest@) as u16)
            } else {
                None
            }),
    {
        assert(rest@[k] == c);
        if !('0' <= c && c <= '9') {
            assert(!digit(rest@[k]));
            return None;
        }
        proof {
            assert(rest@.take(k + 1).drop_last() =~= rest@.take(k));
            assert(rest@.take(k + 1).last() == c);
        }
        value = value * 10 + (c as u32 - '0' as u32);
        if value > u16::MAX as u32 {
            proof {
                number_grows(rest@, k + 1);
            }
            return None;
        }
        proof {
            k = k + 1;
        }
    }
    assert(rest@.take(k) =~= rest@);
    Some(value as u16)
}

/// The decimal text of a number below ten.
fn digit_text(n: u16) -> (res: &'static str)
    requires
        n < 10,
    ensures
        res@ == seq![digit_char(n as nat)],
{
    proof {
        reveal_strlit("0");
        reveal_strlit("1");
        reveal_strlit("2");
        reveal_strlit("3");
        reveal_strlit("4");
        reveal_strlit("5");
        reveal_strlit("6");
        reveal_strlit("7");
        reveal_strlit("8");
        reveal_strlit("9");
    }
    match n {
        0 => "0",
        1 => "1",
        2 => "2",
        3 => "3",
        4 => "4",
        5 => "5",
        6 => "6",
        7 => "7",
        8 => "8",
        _ => "9",
    }
}

/// Writes a port in decimal.
pub fn port_text(n: u16) -> (res: String)
    ensures
        res@ == decimal(n as nat),
    decreases n,
{
    if n < 10 {
        digit_text(n).to_owned()
    } else {
        let mut text = port_text(n / 10);
        text.append(digit_text(n % 10));
        assert(text@ =~= decimal((n / 10) as nat).push(digit_char((n % 10) as nat)));
        text
    }
}

/// Reading the decimal text of a port gives the port back.
pub proof fn port_round_trip(n: u16)
    ensures
        port_number(decimal(n as nat)) == Some(n),
{
    decimal_reads_back(n as nat);
}

/// The decimal text of a number is a run of digits that writes that number.
pub proof fn decimal_reads_back(n: nat)
    ensures
        decimal(n).len() > 0,
        digits(decimal(n)),
        number(decimal(n)) == n,
    decreases n,
{
    if n < 10 {
        assert(decimal(n).drop_last() =~= Seq::<char>::empty());
        assert(number(Seq::<char>::empty()) == 0);
        assert(decimal(n).last() == digit_char(n));
    } else {
        decimal_reads_back(n / 10);
        assert(decimal(n).drop_last() =~= decimal(n / 10));
        assert(decimal(n).last() == digit_char(n % 10));
    }
}

} // verus!

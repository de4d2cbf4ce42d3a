//! Card ids written as text: two hexadecimal digits for each byte.

use vstd::prelude::*;
use vstd::string::{is_ascii_spec_bytes, StringExecFns};
use vstd::utf8::is_ascii_chars;

verus! {

/// The upper-case digit for a value below sixteen.
pub open spec fn hex_digit(nibble: u8) -> char {
    if nibble < 10 {
        (0x30 + nibble) as char
    } else {
        (0x37 + nibble) as char
    }
}

/// The bytes written out, two upper-case digits each, high digit first.
pub open spec fn hex_upper(bytes: Seq<u8>) -> Seq<char>
    decreases bytes.len(),
{
    if bytes.len() == 0 {
        Seq::empty()
    } else {
        hex_upper(bytes.drop_last()).push(hex_digit(bytes.last() >> 4)).push(
            hex_digit(bytes.last() & 0x0F),
        )
    }
}

/// The value of a hexadecimal digit of either case.
pub open spec fn hex_value(c: char) -> Option<u8> {
    if '0' <= c <= '9' {
        Some((c as u8 - 0x30) as u8)
    } else if 'A' <= c <= 'F' {
        Some((c as u8 - 0x37) as u8)
    } else if 'a' <= c <= 'f' {
        Some((c as u8 - 0x57) as u8)
    } else {
        None
    }
}

/// The byte that one or two characters spell: hexadecimal digits, where a
/// plus sign may stand in front of a single digit.
pub open spec fn hex_pair_value(pair: Seq<char>) -> Option<u8> {
    if pair.len() == 1 {
        hex_value(pair[0])
    } else if pair.len() == 2 {
        match (hex_value(pair[0]), hex_value(pair[1])) {
            (Some(high), Some(low)) => Some((high * 16 + low) as u8),
            (None, Some(low)) => if pair[0] == '+' {
                Some(low)
            } else {
                None
            },
            _ => None,
        }
    } else {
        None
    }
}

/// How many pairs a text is cut into; the last may hold a single character.
pub open spec fn pair_count(text: Seq<char>) -> int {
    (text.len() as int + 1) / 2
}

/// The `k`-th pair of a text.
pub open spec fn pair_at(text: Seq<char>, k: int) -> Seq<char> {
    text.subrange(2 * k, if 2 * k + 2 <= text.len() {
        2 * k + 2
    } else {
        text.len() as int
    })
}

/// The bytes that a text spells pair by pair, if every pair spells one.
pub open spec fn parse_hex(text: Seq<char>) -> Option<Seq<u8>> {
    if forall|k: int| 0 <= k < pair_count(text) ==> (#[trigger] hex_pair_value(pair_at(text, k))) is Some {
        Some(Seq::new(pair_count(text) as nat, |k: int| hex_pair_value(pair_at(text, k)).unwrap()))
    } else {
        None
    }
}

/// Where the digits of each byte stand in the text written for a run of bytes.
pub proof fn lemma_hex_upper_digits(bytes: Seq<u8>)
    ensures
        hex_upper(bytes).len() == 2 * bytes.len(),
        forall|k: int|
            0 <= k < bytes.len() ==> {
                &&& hex_upper(bytes)[2 * k] == hex_digit(#[trigger] bytes[k] >> 4)
                &&& hex_upper(bytes)[2 * k + 1] == hex_digit(bytes[k] & 0x0F)
            },
    decreases bytes.len(),
{
    if bytes.len() > 0 {
        lemma_hex_upper_digits(bytes.drop_last());
        assert forall|k: int| 0 <= k < bytes.len() implies {
            &&& hex_upper(bytes)[2 * k] == hex_digit(#[trigger] bytes[k] >> 4)
            &&& hex_upper(bytes)[2 * k + 1] == hex_digit(bytes[k] & 0x0F)
        } by {
            if k < bytes.len() - 1 {
                assert(bytes.drop_last()[k] == bytes[k]);
            }
        }
    }
}

/// A digit spells the value it was written for.
pub proof fn lemma_hex_digit_value(nibble: u8)
    requires
        nibble < 16,
    ensures
        hex_value(hex_digit(nibble)) == Some(nibble),
{
}

/// Text written for a run of bytes reads back as those bytes.
pub proof fn lemma_parse_hex_upper(bytes: Seq<u8>)
    ensures
        parse_hex(hex_upper(bytes)) == Some(bytes),
{
    let text = hex_upper(bytes);
    lemma_hex_upper_digits(bytes);
    assert(pair_count(text) == bytes.len());
    assert forall|k: int| 0 <= k < pair_count(text) implies (#[trigger] hex_pair_value(
        pair_at(text, k),
    )) == Some(bytes[k]) by {
        let byte = bytes[k];
        let pair = pair_at(text, k);
        assert(pair.len() == 2);
        assert(pair[0] == text[2 * k]);
        assert(pair[1] == text[2 * k + 1]);
        assert(byte >> 4 < 16 && byte & 0x0F < 16 && (byte >> 4) * 16 + (byte & 0x0F) == byte)
            by (bit_vector);
        lemma_hex_digit_value(byte >> 4);
        lemma_hex_digit_value(byte & 0x0F);
    }
    assert(parse_hex(text).unwrap() =~= bytes);
}

/// The digit for a value below sixteen, as a string.
fn digit_str(nibble: u8) -> (digit: &'static str)
    requires
        nibble < 16,
    ensures
        digit@ == seq![hex_digit(nibble)],
{
    proof {
        reveal_strlit("0");
        reveal_strlit("1");
        reveal_strlit("2");
        reveal_strlit("3");
        reveal_strlit("4");
        reveal_strlit("5");
        reveal_strlit("6");
        reveal_strlit("7");
        reveal_strlit("8");
        reveal_strlit("9");
        reveal_strlit("A");
        reveal_strlit("B");
        reveal_strlit("C");
        reveal_strlit("D");
        reveal_strlit("E");
        reveal_strlit("F");
    }
    let digit = match nibble {
        0 => "0",
        1 => "1",
        2 => "2",
        3 => "3",
        4 => "4",
        5 => "5",
        6 => "6",
        7 => "7",
        8 => "8",
        9 => "9",
        10 => "A",
        11 => "B",
        12 => "C",
        13 => "D",
        14 => "E",
        _ => "F",
    };
    proof {
        assert(digit@ =~= seq![hex_digit(nibble)]);
    }
    digit
}

/// Writes bytes out as upper-case hexadecimal text.
pub fn to_hex_upper(bytes: &[u8]) -> (text: String)
    ensures
        text@ == hex_upper(bytes@),
{
    let mut text = String::new();
    let mut at: usize = 0;
    while at < bytes.len()
        invariant
            at <= bytes.len(),
            text@ == hex_upper(bytes@.subrange(0, at as int)),
        decreases bytes.len() - at,
    {
        let byte: u8 = bytes[at];
        let high: u8 = byte >> 4;
        let low: u8 = byte & 0x0F;
        proof {
            assert(byte >> 4 < 16) by (bit_vector);
            assert(byte & 0x0F < 16) by (bit_vector);
            assert(bytes@.subrange(0, at + 1).drop_last() =~= bytes@.subrange(0, at as int));
        }
        text.append(digit_str(high));
        text.append(digit_str(low));
        at = at + 1;
        proof {
            assert(text@ =~= hex_upper(bytes@.subrange(0, at as int)));
        }
    }
    proof {
        assert(bytes@.subrange(0, at as int) =~= bytes@);
    }
    text
}

/// The value of an ASCII byte read as a hexadecimal digit.
fn digit_value(byte: u8) -> (value: Option<u8>)
    requires
        byte < 128,
    ensures
        value == hex_value(byte as char),
        value matches Some(v) ==> v < 16,
{
    if 0x30 <= byte && byte <= 0x39 {
        Some(byte - 0x30)
    } else if 0x41 <= byte && byte <= 0x46 {
        Some(byte - 0x37)
    } else if 0x61 <= byte && byte <= 0x66 {
        Some(byte - 0x57)
    } else {
        None
    }
}

/// The byte that the ASCII bytes `first` and, if there is one, `second` spell.
fn pair_value(first: u8, second: Option<u8>) -> (value: Option<u8>)
    requires
        first < 128,
        second matches Some(s) ==> s < 128,
    ensures
        value == hex_pair_value(
            match second {
                Some(s) => seq![first as char, s as char],
                None => seq![first as char],
            },
        ),
{
    match second {
        None => digit_value(first),
        Some(s) => match digit_value(s) {
            None => None,
            Some(low) => match digit_value(first) {
                Some(high) => Some(high * 16 + low),
                None => if first == 0x2B {
                    Some(low)
                } else {
                    None
                },
            },
        },
    }
}

/// A text that holds a character outside ASCII spells no bytes.
proof fn lemma_parse_hex_needs_ascii(text: Seq<char>)
    requires
        !is_ascii_chars(text),
    ensures
        parse_hex(text) is None,
{
    let i = choose|i: int| 0 <= i < text.len() && !('\0' <= #[trigger] text[i] <= '\u{7f}');
    let k = i / 2;
    let pair = pair_at(text, k);
    assert(0 <= k < pair_count(text));
    assert(pair[i - 2 * k] == text[i]);
    assert(hex_value(text[i]) is None);
    assert(hex_pair_value(pair) is None);
}

/// Reads text as bytes, two hexadecimal digits of either case for each; a
/// single digit at the end counts as a byte of its own.
pub fn from_hex(text: &str) -> (bytes: Option<Vec<u8>>)
    ensures
        match parse_hex(text@) {
            Some(value) => bytes matches Some(v) && v@ == value,
            None => bytes is None,
        },
{
    if !text.is_ascii() {
        proof {
            lemma_parse_hex_needs_ascii(text@);
        }
        return None;
    }
    let raw = text.as_bytes();
    proof {
        is_ascii_spec_bytes(text);
        assert forall|i: int| 0 <= i < raw@.len() implies (#[trigger] raw@[i]) as char == text@[i]
            && raw@[i] < 128 by {
            assert('\0' <= text@[i] <= '\u{7f}');
            assert(raw@[i] == text@[i] as u8);
        }
    }
    let count: usize = raw.len() / 2 + raw.len() % 2;
    let mut values: Vec<u8> = Vec::new();
    let mut k: usize = 0;
    while k < count
        invariant
            raw@.len() == text@.len(),
            forall|i: int| 0 <= i < raw@.len() ==> (#[trigger] raw@[i]) as char == text@[i] && raw@[i] < 128,
            count == pair_count(text@),
            k <= count,
            values@.len() == k,
            forall|j: int|
                0 <= j < k ==> hex_pair_value(pair_at(text@, j)) == Some(#[trigger] values@[j]),
        decreases count - k,
    {
        let first: u8 = raw[2 * k];
        let second: Option<u8> = if 2 * k + 1 < raw.len() {
            Some(raw[2 * k + 1])
        } else {
            None
        };
        proof {
            assert(pair_at(text@, k as int) =~= match second {
                Some(s) => seq![first as char, s as char],
                None => seq![first as char],
            });
        }
        match pair_value(first, second) {
            Some(value) => {
                values.push(value);
            },
            None => {
                return None;
            },
        }
        k = k + 1;
    }
    proof {
        assert forall|j: int| 0 <= j < pair_count(text@) implies (#[trigger] hex_pair_value(
            pair_at(text@, j),
        )) is Some by {
            assert(hex_pair_value(pair_at(text@, j)) == Some(values@[j]));
        }
        assert(values@ =~= Seq::new(
            pair_count(text@) as nat,
            |j: int| hex_pair_value(pair_at(text@, j)).unwrap(),
        ));
    }
    Some(values)
}

} // verus!

//! Lowercase hexadecimal text for binary evidence.
//!
//! Binary fields travel through text formats as hexadecimal: two digits per
//! byte, high nibble first. Writing always produces lowercase digits; reading
//! accepts both cases.

use vstd::prelude::*;
use vstd::string::StringExecFns;

verus! {

/// The value of a hexadecimal digit, in either case; `None` for any other
/// character.
pub open spec fn digit_value(c: char) -> Option<u8> {
    if '0' <= c && c <= '9' {
        Some((c as u8 - '0' as u8) as u8)
    } else if 'a' <= c && c <= 'f' {
        Some((c as u8 - 'a' as u8 + 10) as u8)
    } else if 'A' <= c && c <= 'F' {
        Some((c as u8 - 'A' as u8 + 10) as u8)
    } else {
        None
    }
}

/// The lowercase digit that stands for a nibble.
pub open spec fn digit_char(nibble: u8) -> char
    recommends
        nibble < 16,
{
    if nibble < 10 {
        ('0' as u8 + nibble) as char
    } else {
        ('a' as u8 + nibble - 10) as char
    }
}

/// The character at position `i` of the text that stands for `bytes`.
pub open spec fn encoded_char(bytes: Seq<u8>, i: int) -> char
    recommends
        0 <= i < 2 * bytes.len(),
{
    if i % 2 == 0 {
        digit_char(bytes[i / 2] / 16)
    } else {
        digit_char(bytes[i / 2] % 16)
    }
}

/// The hexadecimal text that stands for `bytes`.
pub open spec fn encoded(bytes: Seq<u8>) -> Seq<char> {
    Seq::new(2 * bytes.len(), |i: int| encoded_char(bytes, i))
}

/// Whether `text` is an even number of hexadecimal digits.
pub open spec fn is_hex(text: Seq<char>) -> bool {
    &&& text.len() % 2 == 0
    &&& forall|i: int| 0 <= i < text.len() ==> (#[trigger] digit_value(text[i])) is Some
}

/// The byte that the digit pair at position `i` of `text` stands for.
pub open spec fn decoded_byte(text: Seq<char>, i: int) -> u8
    recommends
        0 <= i && 2 * i + 1 < text.len(),
{
    (digit_value(text[2 * i]).unwrap() * 16 + digit_value(text[2 * i + 1]).unwrap()) as u8
}

/// The bytes that hexadecimal `text` stands for.
pub open spec fn decoded(text: Seq<char>) -> Seq<u8>
    recommends
        is_hex(text),
{
    Seq::new(text.len() / 2, |i: int| decoded_byte(text, i))
}

/// Reading back what was written gives the bytes that were written.
pub proof fn lemma_decode_encode(bytes: Seq<u8>)
    ensures
        is_hex(encoded(bytes)),
        decoded(encoded(bytes)) == bytes,
{
    let text = encoded(bytes);
    assert forall|i: int| 0 <= i < text.len() implies (#[trigger] digit_value(text[i])) is Some by {
        lemma_digit_roundtrip(bytes[i / 2] / 16);
        lemma_digit_roundtrip(bytes[i / 2] % 16);
    }
    assert forall|i: int| 0 <= i < bytes.len() implies decoded_byte(text, i) == bytes[i] by {
        lemma_digit_roundtrip(bytes[i] / 16);
        lemma_digit_roundtrip(bytes[i] % 16);
        assert(text[2 * i] == digit_char(bytes[i] / 16));
        assert(text[2 * i + 1] == digit_char(bytes[i] % 16));
    }
    assert(decoded(text) =~= bytes);
}

/// Written text holds only the digits `0` to `9` and `a` to `f`.
pub proof fn lemma_encoded_is_lowercase(bytes: Seq<u8>)
    ensures
        forall|i: int|
            0 <= i < encoded(bytes).len() ==> {
                let c = #[trigger] encoded(bytes)[i];
                ('0' <= c && c <= '9') || ('a' <= c && c <= 'f')
            },
{
    assert forall|i: int| 0 <= i < encoded(bytes).len() implies {
        let c = #[trigger] encoded(bytes)[i];
        ('0' <= c && c <= '9') || ('a' <= c && c <= 'f')
    } by {
        lemma_digit_roundtrip(bytes[i / 2] / 16);
        lemma_digit_roundtrip(bytes[i / 2] % 16);
    }
}

/// Hexadecimal text without uppercase digits is written back as it was
/// read: among the texts that stand for given bytes, only one is lowercase.
pub proof fn lemma_encode_decode(text: Seq<char>)
    requires
        is_hex(text),
        forall|i: int| 0 <= i < text.len() ==> !('A' <= #[trigger] text[i] && text[i] <= 'F'),
    ensures
        encoded(decoded(text)) == text,
{
    let bytes = decoded(text);
    assert forall|i: int| 0 <= i < text.len() implies encoded(bytes)[i] == text[i] by {
        let j = i / 2;
        assert(digit_value(text[2 * j]) is Some);
        assert(digit_value(text[2 * j + 1]) is Some);
        let hi = digit_value(text[2 * j]).unwrap();
        let lo = digit_value(text[2 * j + 1]).unwrap();
        assert(bytes[j] == hi * 16 + lo);
        assert(bytes[j] / 16 == hi && bytes[j] % 16 == lo);
        assert(digit_value(text[i]) is Some);
    }
    assert(encoded(bytes) =~= text);
}

proof fn lemma_digit_roundtrip(nibble: u8)
    requires
        nibble < 16,
    ensures
        digit_value(digit_char(nibble)) == Some(nibble),
        ('0' <= digit_char(nibble) && digit_char(nibble) <= '9') || ('a' <= digit_char(nibble)
            && digit_char(nibble) <= 'f'),
{
}

/// Reads one hexadecimal digit.
pub fn parse_digit(c: char) -> (value: Option<u8>)
    ensures
        value == digit_value(c),
        value matches Some(v) ==> v < 16,
{
    if '0' <= c && c <= '9' {
        Some(c as u8 - '0' as u8)
    } else if 'a' <= c && c <= 'f' {
        Some(c as u8 - 'a' as u8 + 10)
    } else if 'A' <= c && c <= 'F' {
        Some(c as u8 - 'A' as u8 + 10)
    } else {
        None
    }
}

/// The lowercase digit for a nibble, as a one-character string.
fn digit_text(nibble: u8) -> (text: &'static str)
    requires
        nibble < 16,
    ensures
        text@ == seq![digit_char(nibble)],
{
    proof {
        reveal_strlit("0");
        reveal_strlit("1");
        reveal_strlit("2");
        reveal_strlit("3");
        reveal_strlit("4");
        reveal_strlit("5");
        reveal_strlit("6");
        reveal_strlit("7");
        reveal_strlit("8");
        reveal_strlit("9");
        reveal_strlit("a");
        reveal_strlit("b");
        reveal_strlit("c");
        reveal_strlit("d");
        reveal_strlit("e");
        reveal_strlit("f");
    }
    let text = match nibble {
        0 => "0",
        1 => "1",
        2 => "2",
        3 => "3",
        4 => "4",
        5 => "5",
        6 => "6",
        7 => "7",
        8 => "8",
        9 => "9",
        10 => "a",
        11 => "b",
        12 => "c",
        13 => "d",
        14 => "e",
        _ => "f",
    };
    assert(text@ =~= seq![digit_char(nibble)]);
    text
}

/// Writes `bytes` as lowercase hexadecimal text.
pub fn encode(bytes: &[u8]) -> (text: String)
    ensures
        text@ == encoded(bytes@),
{
    let mut text = String::new();
    let mut i: usize = 0;
    while i < bytes.len()
        invariant
            i <= bytes.len(),
            text@.len() == 2 * i,
            forall|k: int| 0 <= k < 2 * i ==> text@[k] == encoded_char(bytes@, k),
        decreases bytes.len() - i,
    {
        let byte = bytes[i];
        text.append(digit_text(byte / 16));
        text.append(digit_text(byte % 16));
        i += 1;
    }
    assert(text@ =~= encoded(bytes@));
    text
}

/// Reads hexadecimal text back into bytes. Gives `None` for text of odd
/// length and for text that holds anything but hexadecimal digits.
pub fn decode(text: &str) -> (bytes: Option<Vec<u8>>)
    ensures
        bytes is Some <==> is_hex(text@),
        bytes matches Some(b) ==> b@ == decoded(text@),
{
    let mut out: Vec<u8> = Vec::new();
    let mut high: Option<u8> = None;
    for c in it: text.chars()
        invariant
            it.seq() == text@,
            forall|k: int| 0 <= k < it.index() ==> (#[trigger] digit_value(text@[k])) is Some,
            out@.len() == it.index() / 2,
            forall|k: int| 0 <= k < out@.len() ==> out@[k] == decoded_byte(text@, k),
            it.index() % 2 == 0 ==> high is None,
            it.index() % 2 == 1 ==> high == digit_value(text@[it.index() - 1]),
    {
        match parse_digit(c) {
            None => {
                return None;
            },
            Some(low) => {
                match high {
                    None => {
                        high = Some(low);
                    },
                    Some(h) => {
                        out.push(h * 16 + low);
                        high = None;
                    },
                }
            },
        }
    }
    if high.is_some() {
        return None;
    }
    assert(out@ =~= decoded(text@));
    Some(out)
}

} // verus!

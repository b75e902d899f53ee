//! Bytes that may be missing, written as hexadecimal text.

use vstd::prelude::*;
use crate::error::{Error, ErrorView};
use crate::text::to_chars;

verus! {

/// The lower-case hexadecimal digit for `d`.
pub open spec fn lower_hex(d: int) -> char {
    if d < 10 {
        (48 + d) as u8 as char
    } else {
        (87 + d) as u8 as char
    }
}

/// The bytes as hexadecimal text: two lower-case digits for each.
pub open spec fn hex_encoded(bytes: Seq<u8>) -> Seq<char>
    decreases bytes.len(),
{
    if bytes.len() == 0 {
        Seq::empty()
    } else {
        hex_encoded(bytes.drop_last()).push(lower_hex(bytes.last() as int / 16)).push(
            lower_hex(bytes.last() as int % 16),
        )
    }
}

/// What a hexadecimal digit of either case counts.
pub open spec fn hex_value(c: char) -> Option<int> {
    let code = c as u32 as int;
    if 48 <= code <= 57 {
        Some(code - 48)
    } else if 97 <= code <= 102 {
        Some(code - 87)
    } else if 65 <= code <= 70 {
        Some(code - 55)
    } else {
        None
    }
}

/// The bytes that hexadecimal text writes; `None` where the text has an
/// odd length or holds anything but hexadecimal digits.
pub open spec fn hex_decoded(text: Seq<char>) -> Option<Seq<u8>>
    decreases text.len(),
{
    if text.len() == 0 {
        Some(Seq::empty())
    } else if text.len() == 1 {
        None
    } else {
        match (
            hex_decoded(text.take(text.len() - 2)),
            hex_value(text[text.len() - 2]),
            hex_value(text[text.len() - 1]),
        ) {
            (Some(front), Some(high), Some(low)) => Some(front.push((high * 16 + low) as u8)),
            _ => None,
        }
    }
}

/// Text that was written from bytes reads back as those bytes.
pub proof fn lemma_hex_round_trip(bytes: Seq<u8>)
    ensures
        hex_decoded(hex_encoded(bytes)) == Some(bytes),
    decreases bytes.len(),
{
    if bytes.len() > 0 {
        let front = bytes.drop_last();
        let last = bytes.last();
        lemma_hex_round_trip(front);
        let text = hex_encoded(bytes);
        assert(text.take(text.len() - 2) =~= hex_encoded(front));
        let high = last as int / 16;
        let low = last as int % 16;
        assert(hex_value(lower_hex(high)) == Some(high));
        assert(hex_value(lower_hex(low)) == Some(low));
        assert(front.push((high * 16 + low) as u8) =~= bytes);
    }
}

/// Text of odd length writes no bytes.
proof fn lemma_hex_odd(text: Seq<char>)
    requires
        text.len() % 2 == 1,
    ensures
        hex_decoded(text) is None,
    decreases text.len(),
{
    if text.len() > 1 {
        lemma_hex_odd(text.take(text.len() - 2));
    }
}

/// Text whose first `n` characters, an even number, write no bytes writes
/// none itself.
proof fn lemma_hex_failure(text: Seq<char>, n: int)
    requires
        0 <= n <= text.len(),
        (text.len() - n) % 2 == 0,
        hex_decoded(text.take(n)) is None,
    ensures
        hex_decoded(text) is None,
    decreases text.len() - n,
{
    if n < text.len() {
        assert(text.take(n + 2).take(n) =~= text.take(n));
        lemma_hex_failure(text, n + 2);
    } else {
        assert(text.take(n) =~= text);
    }
}

fn lower_hex_char(d: u8) -> (c: char)
    requires
        d < 16,
    ensures
        c == lower_hex(d as int),
{
    if d < 10 {
        (48 + d) as char
    } else {
        (87 + d) as char
    }
}

fn hex_digit(c: char) -> (d: Option<u8>)
    ensures
        match d {
            Some(d) => hex_value(c) == Some(d as int) && d < 16,
            None => hex_value(c) is None,
        },
{
    let code = c as u32;
    if 48 <= code && code <= 57 {
        Some((code - 48) as u8)
    } else if 97 <= code && code <= 102 {
        Some((code - 87) as u8)
    } else if 65 <= code && code <= 70 {
        Some((code - 55) as u8)
    } else {
        None
    }
}

/// Writes bytes as hexadecimal text: see [`hex_encoded`].
pub fn hex_encode(bytes: &Vec<u8>) -> (text: String)
    ensures
        text@ == hex_encoded(bytes@),
{
    let mut text = String::new();
    let mut i: usize = 0;
    assert(bytes@.take(0) =~= Seq::<u8>::empty());
    while i < bytes.len()
        invariant
            i <= bytes.len(),
            text@ == hex_encoded(bytes@.take(i as int)),
        decreases bytes.len() - i,
    {
        let b = bytes[i];
        assert(bytes@.take(i + 1).drop_last() =~= bytes@.take(i as int));
        text.push(lower_hex_char(b / 16));
        text.push(lower_hex_char(b % 16));
        i += 1;
    }
    assert(bytes@.take(bytes@.len() as int) =~= bytes@);
    text
}

/// Reads bytes from hexadecimal text: see [`hex_decoded`].
pub fn hex_decode(text: &str) -> (r: Option<Vec<u8>>)
    ensures
        match r {
            Some(bytes) => hex_decoded(text@) == Some(bytes@),
            None => hex_decoded(text@) is None,
        },
{
    let chars = to_chars(text);
    let n = chars.len();
    if n % 2 != 0 {
        proof {
            lemma_hex_odd(chars@);
        }
        return None;
    }
    let mut bytes: Vec<u8> = Vec::new();
    let mut i: usize = 0;
    assert(chars@.take(0) =~= Seq::<char>::empty());
    while i < n
        invariant
            i <= n,
            n == chars.len(),
            chars@ == text@,
            n % 2 == 0,
            i % 2 == 0,
            hex_decoded(chars@.take(i as int)) == Some(bytes@),
        decreases n - i,
    {
        let ghost front = chars@.take(i + 2);
        assert(front.take(front.len() - 2) =~= chars@.take(i as int));
        assert(front[front.len() - 2] == chars@[i as int]);
        assert(front[front.len() - 1] == chars@[i + 1]);
        match (hex_digit(chars[i]), hex_digit(chars[i + 1])) {
            (Some(high), Some(low)) => {
                bytes.push(high * 16 + low);
            },
            _ => {
                proof {
                    lemma_hex_failure(chars@, i + 2);
                }
                return None;
            },
        }
        i += 2;
    }
    assert(chars@.take(n as int) =~= chars@);
    Some(bytes)
}

/// The text for bytes that may be missing.
pub fn serialize(bytes: &Option<Vec<u8>>) -> (text: Option<String>)
    ensures
        text.deep_view() == match bytes {
            Some(bytes) => Some(hex_encoded(bytes@)),
            None => None,
        },
{
    match bytes {
        Some(bytes) => Some(hex_encode(bytes)),
        None => None,
    }
}

/// The bytes that text, which may be missing, writes; a failure where the
/// text is not hexadecimal.
pub fn deserialize(text: Option<String>) -> (r: Result<Option<Vec<u8>>, Error>)
    ensures
        match text {
            None => r matches Ok(None),
            Some(text) => match hex_decoded(text@) {
                Some(bytes) => r matches Ok(Some(found)) && found@ == bytes,
                None => r matches Err(e) && e@ == ErrorView::FailedToParseIntoJson,
            },
        },
{
    match text {
        None => Ok(None),
        Some(text) => match hex_decode(text.as_str()) {
            Some(bytes) => Ok(Some(bytes)),
            None => Err(Error::FailedToParseIntoJson),
        },
    }
}

} // verus!

//! Percent-encoding of path segments.

use vstd::prelude::*;
use vstd::utf8::encode_utf8;

verus! {

/// Bytes that stand for themselves in a URL: letters, digits, `-`, `.`, `_` and `~`.
pub open spec fn is_unreserved(byte: u8) -> bool {
    let c = byte as char;
    ||| 'A' <= c <= 'Z'
    ||| 'a' <= c <= 'z'
    ||| '0' <= c <= '9'
    ||| c == '-'
    ||| c == '.'
    ||| c == '_'
    ||| c == '~'
}

/// The upper-case hexadecimal digit of `n`.
pub open spec fn hex_char(n: u8) -> char
    recommends
        n < 16,
{
    if n < 10 {
        (0x30 + n) as char
    } else {
        (0x37 + n) as char
    }
}

/// How one byte is written: as itself, or as `%XX`.
pub open spec fn encoded_byte(byte: u8) -> Seq<char> {
    if is_unreserved(byte) {
        seq![byte as char]
    } else {
        seq!['%', hex_char(byte / 16), hex_char(byte % 16)]
    }
}

/// The percent-encoding of a byte string.
pub open spec fn percent_encoded(bytes: Seq<u8>) -> Seq<char>
    decreases bytes.len(),
{
    if bytes.len() == 0 {
        Seq::empty()
    } else {
        encoded_byte(bytes[0]) + percent_encoded(bytes.skip(1))
    }
}

fn hex_digit(n: u8) -> (digit: char)
    requires
        n < 16,
    ensures
        digit == hex_char(n),
{
    if n < 10 {
        (0x30 + n) as char
    } else {
        (0x37 + n) as char
    }
}

/// Percent-encode a path segment or a query value.
pub fn encode(text: &str) -> (encoded: String)
    ensures
        encoded@ == percent_encoded(encode_utf8(text@)),
{
    let bytes = text.as_bytes();
    let mut encoded = String::new();
    let mut i: usize = 0;
    assert(bytes@.skip(0) =~= bytes@);
    while i < bytes.len()
        invariant
            0 <= i <= bytes@.len(),
            bytes@ == encode_utf8(text@),
            encoded@ + percent_encoded(bytes@.skip(i as int)) == percent_encoded(bytes@),
        decreases bytes@.len() - i,
    {
        let byte: u8 = bytes[i];
        let ghost before = encoded@;
        match byte as char {
            'A'..='Z' | 'a'..='z' | '0'..='9' | '-' | '.' | '_' | '~' => {
                encoded.push(byte as char);
            },
            _ => {
                encoded.push('%');
                encoded.push(hex_digit(byte / 16));
                encoded.push(hex_digit(byte % 16));
            },
        }
        proof {
            assert(bytes@.skip(i as int).skip(1) =~= bytes@.skip(i + 1));
            assert(encoded@ =~= before + encoded_byte(byte));
            assert(encoded@ + percent_encoded(bytes@.skip(i + 1)) =~= before + (encoded_byte(byte)
                + percent_encoded(bytes@.skip(i + 1))));
        }
        i += 1;
    }
    assert(encoded@ + percent_encoded(bytes@.skip(i as int)) =~= encoded@);
    encoded
}

/// The value of an upper-case hexadecimal digit.
pub open spec fn hex_value(c: char) -> Option<u8> {
    if '0' <= c <= '9' {
        Some((c as u8 - 0x30) as u8)
    } else if 'A' <= c <= 'F' {
        Some((c as u8 - 0x37) as u8)
    } else {
        None
    }
}

/// The byte string that a percent-encoded text stands for.
pub open spec fn percent_decoded(text: Seq<char>) -> Option<Seq<u8>>
    decreases text.len(),
{
    if text.len() == 0 {
        Some(Seq::empty())
    } else if text[0] != '%' {
        match percent_decoded(text.skip(1)) {
            Some(rest) if text[0] <= '\u{7f}' => Some(seq![text[0] as u8] + rest),
            _ => None,
        }
    } else if text.len() < 3 {
        None
    } else {
        match (hex_value(text[1]), hex_value(text[2]), percent_decoded(text.skip(3))) {
            (Some(high), Some(low), Some(rest)) => Some(seq![(16 * high + low) as u8] + rest),
            _ => None,
        }
    }
}

/// Decoding gives back the bytes that were encoded.
pub proof fn encoding_is_reversible(bytes: Seq<u8>)
    ensures
        percent_decoded(percent_encoded(bytes)) == Some(bytes),
    decreases bytes.len(),
{
    if bytes.len() > 0 {
        let rest = bytes.skip(1);
        let head = encoded_byte(bytes[0]);
        encoding_is_reversible(rest);
        assert((head + percent_encoded(rest)).skip(head.len() as int) =~= percent_encoded(rest));
        assert(seq![bytes[0]] + rest =~= bytes);
    }
}

/// Different texts are encoded differently.
pub proof fn encoding_is_injective(a: Seq<char>, b: Seq<char>)
    requires
        percent_encoded(encode_utf8(a)) == percent_encoded(encode_utf8(b)),
    ensures
        a == b,
{
    encoding_is_reversible(encode_utf8(a));
    encoding_is_reversible(encode_utf8(b));
    vstd::utf8::encode_utf8_decode_utf8(a);
    vstd::utf8::encode_utf8_decode_utf8(b);
}

/// Characters that an encoded text is made of.
pub open spec fn is_encoded_char(c: char) -> bool {
    c == '%' || (c <= '\u{7f}' && is_unreserved(c as u8))
}

/// An encoded text holds unreserved characters and `%` only, so it never splits a path, opens a
/// query or starts a fragment.
pub proof fn encoding_is_one_segment(bytes: Seq<u8>)
    ensures
        forall|i: int|
            0 <= i < percent_encoded(bytes).len() ==> is_encoded_char(
                #[trigger] percent_encoded(bytes)[i],
            ),
        !percent_encoded(bytes).contains('/'),
        !percent_encoded(bytes).contains('?'),
        !percent_encoded(bytes).contains('#'),
    decreases bytes.len(),
{
    if bytes.len() > 0 {
        let rest = bytes.skip(1);
        let head = encoded_byte(bytes[0]);
        encoding_is_one_segment(rest);
        assert forall|i: int| 0 <= i < percent_encoded(bytes).len() implies is_encoded_char(
            #[trigger] percent_encoded(bytes)[i],
        ) by {
            if i < head.len() {
                assert(percent_encoded(bytes)[i] == head[i]);
            } else {
                assert(percent_encoded(bytes)[i] == percent_encoded(rest)[i - head.len()]);
            }
        }
    }
}

/// The encoding of a whole is that of its parts, one after the other.
pub proof fn encoding_is_bytewise(a: Seq<u8>, b: Seq<u8>)
    ensures
        percent_encoded(a + b) == percent_encoded(a) + percent_encoded(b),
    decreases a.len(),
{
    if a.len() == 0 {
        assert(a + b =~= b);
        assert(percent_encoded(a) + percent_encoded(b) =~= percent_encoded(b));
    } else {
        encoding_is_bytewise(a.skip(1), b);
        assert((a + b).skip(1) =~= a.skip(1) + b);
        assert(percent_encoded(a + b) =~= percent_encoded(a) + percent_encoded(b));
    }
}

/// Letters, digits, `-`, `.`, `_` and `~` stand for themselves; any other byte is written as a
/// percent sign and the two upper-case hexadecimal digits of its value.
pub proof fn a_byte_stands_for_itself_or_is_spelled_out(byte: u8)
    ensures
        ({
            let c = byte as char;
            let written = percent_encoded(seq![byte]);
            if 'A' <= c <= 'Z' || 'a' <= c <= 'z' || '0' <= c <= '9' || c == '-' || c == '.' || c
                == '_' || c == '~' {
                written == seq![c]
            } else {
                written == seq![
                    '%',
                    "0123456789ABCDEF"@[byte as int / 16],
                    "0123456789ABCDEF"@[byte as int % 16],
                ]
            }
        }),
{
    reveal_strlit("0123456789ABCDEF");
    let written = percent_encoded(seq![byte]);
    assert(percent_encoded(seq![byte].skip(1)) =~= Seq::empty());
    assert(written =~= encoded_byte(byte));
    let high = byte / 16;
    let low = byte % 16;
    assert(forall|n: u8| #![trigger hex_char(n)] n < 16 ==> hex_char(n)
        == "0123456789ABCDEF"@[n as int]);
    assert(hex_char(high) == "0123456789ABCDEF"@[high as int]);
    assert(hex_char(low) == "0123456789ABCDEF"@[low as int]);
}

/// The texts that are encoded as they are.
pub proof fn an_unreserved_text_is_kept(bytes: Seq<u8>)
    requires
        forall|i: int|
            0 <= i < bytes.len() ==> ('A' <= (#[trigger] bytes[i]) as char <= 'Z' || 'a'
                <= bytes[i] as char <= 'z' || '0' <= bytes[i] as char <= '9' || bytes[i] as char
                == '-' || bytes[i] as char == '.' || bytes[i] as char == '_' || bytes[i] as char
                == '~'),
    ensures
        percent_encoded(bytes).len() == bytes.len(),
        forall|i: int|
            0 <= i < bytes.len() ==> #[trigger] percent_encoded(bytes)[i] == bytes[i] as char,
    decreases bytes.len(),
{
    if bytes.len() > 0 {
        let rest = bytes.skip(1);
        assert forall|i: int| 0 <= i < rest.len() implies ('A' <= (#[trigger] rest[i]) as char
            <= 'Z' || 'a' <= rest[i] as char <= 'z' || '0' <= rest[i] as char <= '9'
            || rest[i] as char == '-' || rest[i] as char == '.' || rest[i] as char == '_'
            || rest[i] as char == '~') by {
            assert(rest[i] == bytes[i + 1]);
        }
        an_unreserved_text_is_kept(rest);
        assert(is_unreserved(bytes[0]));
        assert forall|i: int| 0 <= i < bytes.len() implies #[trigger] percent_encoded(bytes)[i]
            == bytes[i] as char by {
            if i > 0 {
                assert(percent_encoded(bytes)[i] == percent_encoded(rest)[i - 1]);
                assert(rest[i - 1] == bytes[i]);
            }
        }
    }
}

} // verus!

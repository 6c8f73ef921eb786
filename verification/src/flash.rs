//! One-shot flash messages, carried in a cookie: percent-encoded on the way
//! out, decoded and cleared on the way in.
use vstd::prelude::*;
use vstd::utf8::*;

verus! {

/// The cookie that carries a flash message.
pub const FLASH_COOKIE: &'static str = "frust_flash";

/// The path that the flash cookie is set and cleared for.
pub const FLASH_PATH: &'static str = "/";

/// What `String::from_utf8_lossy` makes of bytes, invalid ones included.
pub uninterp spec fn lossy_text(bytes: Seq<u8>) -> Seq<char>;

/// `String::from_utf8_lossy`: bytes that are valid UTF-8 come back as the text
/// they encode; any others come back as some text that the bytes alone decide
/// (which one, with replacement characters for the invalid parts, is left
/// unsaid here).
#[verifier::external_body]
fn utf8_lossy(bytes: &Vec<u8>) -> (text: String)
    ensures
        text@ == lossy_text(bytes@),
        valid_utf8(bytes@) ==> text@ == decode_utf8(bytes@),
{
    String::from_utf8_lossy(bytes).into_owned()
}

/// An ASCII letter or digit.
pub open spec fn is_alphanumeric(b: u8) -> bool {
    ||| 0x30 <= b <= 0x39
    ||| 0x41 <= b <= 0x5a
    ||| 0x61 <= b <= 0x7a
}

/// The upper-case hexadecimal digit of `n`, which is below sixteen.
pub open spec fn hex_digit(n: int) -> char {
    if n < 10 {
        (n + 0x30) as char
    } else {
        (n - 10 + 0x41) as char
    }
}

/// One byte as it stands in an encoded message: a letter or a digit as itself,
/// any other byte as `%` and two hexadecimal digits.
pub open spec fn escaped(b: u8) -> Seq<char> {
    if is_alphanumeric(b) {
        seq![b as char]
    } else {
        seq!['%', hex_digit(b as int / 16), hex_digit(b as int % 16)]
    }
}

/// Bytes as they stand in an encoded message.
pub open spec fn encoded(bytes: Seq<u8>) -> Seq<char>
    decreases bytes.len(),
{
    if bytes.len() == 0 {
        Seq::empty()
    } else {
        escaped(bytes[0]) + encoded(bytes.drop_first())
    }
}

/// The number that a hexadecimal digit of either case stands for.
pub open spec fn hex_value(b: u8) -> Option<int> {
    if 0x30 <= b <= 0x39 {
        Some(b - 0x30)
    } else if 0x41 <= b <= 0x46 {
        Some(b - 0x41 + 10)
    } else if 0x61 <= b <= 0x66 {
        Some(b - 0x61 + 10)
    } else {
        None
    }
}

/// The byte that the two characters behind a `%` name: two hexadecimal digits,
/// or a plus sign and one.
pub open spec fn named_byte(x: u8, y: u8) -> Option<u8> {
    match (hex_value(x), hex_value(y)) {
        (Some(high), Some(low)) => Some((high * 16 + low) as u8),
        (None, Some(low)) => if x == 0x2b {
            Some(low as u8)
        } else {
            None
        },
        _ => None,
    }
}

/// The bytes of a message from the bytes of its encoded form. A `%` that names
/// no byte stands for itself.
pub open spec fn decoded(bytes: Seq<u8>) -> Seq<u8>
    decreases bytes.len(),
{
    if bytes.len() == 0 {
        Seq::empty()
    } else if bytes[0] == 0x25 && bytes.len() > 2 && named_byte(bytes[1], bytes[2]) is Some {
        seq![named_byte(bytes[1], bytes[2])->0] + decoded(bytes.skip(3))
    } else {
        seq![bytes[0]] + decoded(bytes.drop_first())
    }
}

/// What `pct_encode` returns.
pub open spec fn encoded_text(text: Seq<char>) -> Seq<char> {
    encoded(encode_utf8(text))
}

/// What `pct_decode` returns.
pub open spec fn decoded_text(text: Seq<char>) -> Seq<char> {
    let bytes = decoded(encode_utf8(text));
    if valid_utf8(bytes) {
        decode_utf8(bytes)
    } else {
        lossy_text(bytes)
    }
}

fn hex_char(n: u8) -> (c: char)
    requires
        n < 16,
    ensures
        c == hex_digit(n as int),
{
    if n < 10 {
        (n + 0x30) as char
    } else {
        (n - 10 + 0x41) as char
    }
}

fn hex_number(b: u8) -> (value: Option<u8>)
    ensures
        match value {
            Some(n) => hex_value(b) == Some(n as int) && n < 16,
            None => hex_value(b) is None,
        },
{
    if 0x30 <= b && b <= 0x39 {
        Some(b - 0x30)
    } else if 0x41 <= b && b <= 0x46 {
        Some(b - 0x41 + 10)
    } else if 0x61 <= b && b <= 0x66 {
        Some(b - 0x61 + 10)
    } else {
        None
    }
}

fn byte_named_by(x: u8, y: u8) -> (value: Option<u8>)
    ensures
        value == named_byte(x, y),
{
    match (hex_number(x), hex_number(y)) {
        (Some(high), Some(low)) => Some(high * 16 + low),
        (None, Some(low)) => if x == 0x2b {
            Some(low)
        } else {
            None
        },
        _ => None,
    }
}

/// Percent-encodes every byte of `s` that is not an ASCII letter or digit.
pub fn pct_encode(s: &str) -> (out: String)
    ensures
        out@ == encoded_text(s@),
{
    let bytes = s.as_bytes();
    let mut out = String::new();
    let mut i: usize = 0;
    proof {
        assert(bytes@.skip(0) == bytes@);
        assert(out@ + encoded(bytes@) == encoded(bytes@));
    }
    while i < bytes.len()
        invariant
            i <= bytes@.len(),
            out@ + encoded(bytes@.skip(i as int)) == encoded(bytes@),
        decreases bytes@.len() - i,
    {
        let b: u8 = bytes[i];
        let ghost front = out@;
        if (0x30 <= b && b <= 0x39) || (0x41 <= b && b <= 0x5a) || (0x61 <= b && b <= 0x7a) {
            out.push(b as char);
        } else {
            out.push('%');
            out.push(hex_char(b / 16));
            out.push(hex_char(b % 16));
        }
        proof {
            let rest = bytes@.skip(i as int);
            assert(rest.drop_first() == bytes@.skip(i + 1));
            assert(out@ == front + escaped(b));
            assert(front + (escaped(b) + encoded(rest.drop_first())) == out@ + encoded(
                rest.drop_first(),
            ));
        }
        i += 1;
    }
    proof {
        assert(bytes@.skip(i as int) == Seq::<u8>::empty());
        assert(out@ + Seq::<char>::empty() == out@);
    }
    out
}

/// Undoes [`pct_encode`]. A `%` that names no byte is kept.
pub fn pct_decode(s: &str) -> (text: String)
    ensures
        text@ == decoded_text(s@),
{
    let bytes = s.as_bytes();
    let mut out: Vec<u8> = Vec::new();
    let len: usize = bytes.len();
    let mut i: usize = 0;
    proof {
        assert(bytes@.skip(0) == bytes@);
        assert(out@ + decoded(bytes@) == decoded(bytes@));
    }
    while i < len
        invariant
            i <= len,
            len == bytes@.len(),
            out@ + decoded(bytes@.skip(i as int)) == decoded(bytes@),
        decreases len - i,
    {
        let ghost rest = bytes@.skip(i as int);
        let ghost front = out@;
        let named: Option<u8> = if bytes[i] == 0x25 && len - i > 2 {
            byte_named_by(bytes[i + 1], bytes[i + 2])
        } else {
            None
        };
        match named {
            Some(v) => {
                out.push(v);
                i += 3;
                proof {
                    assert(rest.skip(3) == bytes@.skip(i as int));
                    assert(front + (seq![v] + decoded(rest.skip(3))) == out@ + decoded(
                        rest.skip(3),
                    ));
                }
            },
            None => {
                out.push(bytes[i]);
                i += 1;
                proof {
                    assert(rest.drop_first() == bytes@.skip(i as int));
                    assert(front + (seq![rest[0]] + decoded(rest.drop_first())) == out@ + decoded(
                        rest.drop_first(),
                    ));
                }
            },
        }
    }
    proof {
        assert(bytes@.skip(i as int) == Seq::<u8>::empty());
        assert(out@ + Seq::<u8>::empty() == out@);
    }
    utf8_lossy(&out)
}

/// The value of the flash cookie that carries `msg`.
pub fn flash(msg: &str) -> (value: String)
    ensures
        value@ == encoded_text(msg@),
{
    pct_encode(msg)
}

/// What a page does about the flash cookie of its request.
pub struct TakenFlash {
    /// The message to show.
    pub message: Option<String>,
    /// The cookie is to be cleared.
    pub clear: bool,
}

/// Takes the message out of the flash cookie, given the cookie's value where
/// the request carries one. A cookie is cleared whatever it holds; an empty
/// message is not shown.
pub fn take_flash(value: Option<&str>) -> (taken: TakenFlash)
    ensures
        taken.clear == (value is Some),
        match value {
            Some(cookie) => match taken.message {
                Some(message) => message@ == decoded_text(cookie@) && message@.len() > 0,
                None => decoded_text(cookie@).len() == 0,
            },
            None => taken.message is None,
        },
{
    match value {
        Some(cookie) => {
            let message = pct_decode(cookie);
            if message.as_str().is_empty() {
                TakenFlash { message: None, clear: true }
            } else {
                TakenFlash { message: Some(message), clear: true }
            }
        },
        None => TakenFlash { message: None, clear: false },
    }
}

/// An encoded message is ASCII, and the bytes of its characters are letters,
/// digits and `%`.
proof fn lemma_encoded_is_ascii(bytes: Seq<u8>)
    ensures
        is_ascii_chars(encoded(bytes)),
        forall|i: int|
            0 <= i < encoded(bytes).len() ==> is_alphanumeric(#[trigger] encoded(bytes)[i] as u8)
                || encoded(bytes)[i] == '%',
    decreases bytes.len(),
{
    if bytes.len() > 0 {
        lemma_encoded_is_ascii(bytes.drop_first());
        let head = escaped(bytes[0]);
        let tail = encoded(bytes.drop_first());
        assert forall|i: int| 0 <= i < (head + tail).len() implies '\0' <= #[trigger] (head
            + tail)[i] <= '\u{7f}' && (is_alphanumeric((head + tail)[i] as u8) || (head + tail)[i]
            == '%') by {
            if i >= head.len() {
                assert((head + tail)[i] == tail[i - head.len()]);
            }
        }
    }
}

/// The bytes of one escaped byte, with anything behind them, decode to it.
proof fn lemma_decoded_escaped(b: u8, tail: Seq<u8>)
    ensures
        decoded(Seq::new(escaped(b).len(), |i: int| escaped(b)[i] as u8) + tail) == seq![b]
            + decoded(tail),
{
    let head = Seq::new(escaped(b).len(), |i: int| escaped(b)[i] as u8);
    let all = head + tail;
    if is_alphanumeric(b) {
        assert(all[0] == b);
        assert(all.drop_first() == tail);
    } else {
        let high = b as int / 16;
        let low = b as int % 16;
        assert(all[0] == 0x25);
        assert(all[1] == hex_digit(high) as u8);
        assert(all[2] == hex_digit(low) as u8);
        assert(hex_value(all[1]) == Some(high));
        assert(hex_value(all[2]) == Some(low));
        assert(all.skip(3) == tail);
    }
}

/// Decoding the bytes of an encoded message gives the bytes back.
proof fn lemma_decoded_encoded(bytes: Seq<u8>)
    ensures
        decoded(encode_utf8(encoded(bytes))) == bytes,
    decreases bytes.len(),
{
    lemma_encoded_is_ascii(bytes);
    is_ascii_chars_encode_utf8(encoded(bytes));
    if bytes.len() == 0 {
        assert(encode_utf8(encoded(bytes)) == Seq::<u8>::empty());
    } else {
        let rest = bytes.drop_first();
        lemma_encoded_is_ascii(rest);
        is_ascii_chars_encode_utf8(encoded(rest));
        lemma_decoded_encoded(rest);
        let head = Seq::new(escaped(bytes[0]).len(), |i: int| escaped(bytes[0])[i] as u8);
        assert(encode_utf8(encoded(bytes)) =~= head + encode_utf8(encoded(rest)));
        lemma_decoded_escaped(bytes[0], encode_utf8(encoded(rest)));
        assert(seq![bytes[0]] + rest == bytes);
    }
}

/// A message survives the cookie: decoding what was encoded gives it back,
/// whatever characters it holds.
pub proof fn law_decode_undoes_encode(text: Seq<char>)
    ensures
        decoded_text(encoded_text(text)) == text,
{
    lemma_decoded_encoded(encode_utf8(text));
    encode_utf8_valid_utf8(text);
    encode_utf8_decode_utf8(text);
}

/// Two messages never share an encoded form.
pub proof fn law_encoding_is_injective(a: Seq<char>, b: Seq<char>)
    requires
        encoded_text(a) == encoded_text(b),
    ensures
        a == b,
{
    law_decode_undoes_encode(a);
    law_decode_undoes_encode(b);
}

/// An encoded message holds nothing that a cookie value cannot: ASCII letters,
/// digits and `%` alone.
pub proof fn law_encoded_text_is_cookie_safe(text: Seq<char>)
    ensures
        is_ascii_chars(encoded_text(text)),
        forall|i: int|
            0 <= i < encoded_text(text).len() ==> is_alphanumeric(
                #[trigger] encoded_text(text)[i] as u8,
            ) || encoded_text(text)[i] == '%',
{
    lemma_encoded_is_ascii(encode_utf8(text));
}

/// A message is encoded byte by byte.
pub proof fn law_encoding_is_bytewise(a: Seq<u8>, b: Seq<u8>)
    ensures
        encoded(a + b) == encoded(a) + encoded(b),
        encoded(Seq::empty()) == Seq::<char>::empty(),
    decreases a.len(),
{
    if a.len() == 0 {
        assert(a + b =~= b);
        assert(encoded(a) + encoded(b) =~= encoded(b));
    } else {
        assert((a + b).drop_first() =~= a.drop_first() + b);
        law_encoding_is_bytewise(a.drop_first(), b);
        assert(escaped(a[0]) + (encoded(a.drop_first()) + encoded(b)) =~= (escaped(a[0]) + encoded(
            a.drop_first(),
        )) + encoded(b));
    }
}

/// The character of an encoded message for a letter or a digit is itself; any other
/// byte is a percent sign and its two hexadecimal digits, in upper case.
pub proof fn law_encoding_of_a_byte(b: u8)
    ensures
        ({
            let c = b as char;
            let hex = "0123456789ABCDEF"@;
            let plain = 'a' <= c <= 'z' || 'A' <= c <= 'Z' || '0' <= c <= '9';
            &&& plain ==> encoded(seq![b]) == seq![c]
            &&& !plain ==> encoded(seq![b]) == seq!['%', hex[b as int / 16], hex[b as int % 16]]
        }),
{
    reveal_strlit("0123456789ABCDEF");
    reveal_with_fuel(encoded, 2);
    assert(seq![b].drop_first() =~= Seq::<u8>::empty());
    assert(encoded(seq![b]) =~= escaped(b));
    lemma_hex_digit(b as int / 16);
    lemma_hex_digit(b as int % 16);
}

proof fn lemma_hex_digit(n: int)
    requires
        0 <= n < 16,
    ensures
        hex_digit(n) == "0123456789ABCDEF"@[n],
{
    reveal_strlit("0123456789ABCDEF");
    assert(n == 0 || n == 1 || n == 2 || n == 3 || n == 4 || n == 5 || n == 6 || n == 7 || n == 8
        || n == 9 || n == 10 || n == 11 || n == 12 || n == 13 || n == 14 || n == 15);
}

/// The byte is the hexadecimal digit of `n`, in either case.
pub open spec fn is_hex(b: u8, n: int) -> bool {
    &&& 0 <= n < 16
    &&& b as char == "0123456789ABCDEF"@[n] || b as char == "0123456789abcdef"@[n]
}

proof fn lemma_is_hex(b: u8, n: int)
    ensures
        is_hex(b, n) <==> hex_value(b) == Some(n),
{
    reveal_strlit("0123456789ABCDEF");
    reveal_strlit("0123456789abcdef");
    if 0 <= n < 16 {
        assert(n == 0 || n == 1 || n == 2 || n == 3 || n == 4 || n == 5 || n == 6 || n == 7 || n
            == 8 || n == 9 || n == 10 || n == 11 || n == 12 || n == 13 || n == 14 || n == 15);
    }
}

/// Decoding goes from front to back: a percent sign with two hexadecimal digits of
/// either case is the byte that they name, with a plus sign and one digit the byte that
/// the digit names; every other byte stands for itself.
pub proof fn law_decoding_of_the_front(x: u8, y: u8, high: int, low: int, rest: Seq<u8>)
    ensures
        decoded(Seq::empty()) == Seq::<u8>::empty(),
        x as char != '%' ==> decoded(seq![x] + rest) == seq![x] + decoded(rest),
        is_hex(x, high) && is_hex(y, low) ==> decoded(seq!['%' as u8, x, y] + rest) == seq![
            (16 * high + low) as u8,
        ] + decoded(rest),
        x as char == '+' && is_hex(y, low) ==> decoded(seq!['%' as u8, x, y] + rest) == seq![
            low as u8,
        ] + decoded(rest),
{
    lemma_is_hex(x, high);
    lemma_is_hex(y, low);
    lemma_is_hex('+' as u8, high);
    assert((seq![x] + rest).drop_first() =~= rest);
    assert((seq!['%' as u8, x, y] + rest).skip(3) =~= rest);
}

/// A percent sign that no such pair follows is kept.
pub proof fn law_decoding_keeps_a_bare_percent(rest: Seq<u8>)
    requires
        rest.len() < 2 || (forall|low: int| !is_hex(rest[1], low)) || (rest[0] as char != '+'
            && forall|high: int| !is_hex(rest[0], high)),
    ensures
        decoded(seq!['%' as u8] + rest) == seq!['%' as u8] + decoded(rest),
{
    let all = seq!['%' as u8] + rest;
    assert(all.drop_first() =~= rest);
    if rest.len() >= 2 {
        assert(all[1] == rest[0] && all[2] == rest[1]);
        if let Some(n) = hex_value(rest[1]) {
            lemma_is_hex(rest[1], n);
            assert(is_hex(rest[1], n));
        }
        if let Some(n) = hex_value(rest[0]) {
            lemma_is_hex(rest[0], n);
            assert(is_hex(rest[0], n));
        }
    }
}

/// Where the decoded bytes are those of a text, that text is the message; the bytes
/// that are encoded are those of the message.
pub proof fn law_messages_are_utf8(value: Seq<char>, text: Seq<char>)
    ensures
        decoded(encode_utf8(value)) == encode_utf8(text) ==> decoded_text(value) == text,
        !valid_utf8(decoded(encode_utf8(value))) ==> decoded_text(value) == lossy_text(
            decoded(encode_utf8(value)),
        ),
        encoded_text(text) == encoded(encode_utf8(text)),
{
    encode_utf8_valid_utf8(text);
    encode_utf8_decode_utf8(text);
}

} // verus!

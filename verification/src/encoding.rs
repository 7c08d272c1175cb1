//! Percent-encoding of URL components, through the `urlencoding` crate.
use vstd::prelude::*;
use vstd::utf8::{
    decode_utf8, encode_utf8, encode_utf8_decode_utf8, encode_utf8_valid_utf8, is_ascii_chars,
    is_ascii_chars_encode_utf8, valid_utf8,
};

verus! {

/// Bytes that `urlencoding::encode` leaves as they are: ASCII letters and
/// digits, `-`, `.`, `_` and `~`.
pub open spec fn is_unreserved_byte(b: u8) -> bool {
    ||| 0x30 <= b <= 0x39
    ||| 0x41 <= b <= 0x5a
    ||| 0x61 <= b <= 0x7a
    ||| b == 0x2d
    ||| b == 0x2e
    ||| b == 0x5f
    ||| b == 0x7e
}

/// The upper-case hexadecimal digit for `d < 16`.
pub open spec fn hex_digit_upper(d: u8) -> char {
    if d < 10 {
        (0x30 + d) as char
    } else {
        (0x37 + d) as char
    }
}

/// Every byte but the unreserved ones written as `%XX`, upper-case hex.
pub open spec fn percent_encoded(bytes: Seq<u8>) -> Seq<char>
    decreases bytes.len(),
{
    if bytes.len() == 0 {
        Seq::empty()
    } else {
        let b = bytes[0];
        (if is_unreserved_byte(b) {
            seq![b as char]
        } else {
            seq!['%', hex_digit_upper(b / 16), hex_digit_upper(b % 16)]
        }) + percent_encoded(bytes.drop_first())
    }
}

/// `urlencoding::encode`: the UTF-8 bytes of `s`, percent-encoded.
pub open spec fn url_encoded(s: Seq<char>) -> Seq<char> {
    percent_encoded(encode_utf8(s))
}

/// The value of an ASCII hexadecimal digit, either case.
pub open spec fn hex_value(b: u8) -> Option<u8> {
    if 0x30 <= b <= 0x39 {
        Some((b - 0x30) as u8)
    } else if 0x41 <= b <= 0x46 {
        Some((b - 0x41 + 10) as u8)
    } else if 0x61 <= b <= 0x66 {
        Some((b - 0x61 + 10) as u8)
    } else {
        None
    }
}

/// Each `%` followed by two hexadecimal digits replaced by the byte they
/// spell; every other byte, a lone `%` too, kept.
pub open spec fn percent_decoded(bytes: Seq<u8>) -> Seq<u8>
    decreases bytes.len(),
{
    if bytes.len() == 0 {
        Seq::empty()
    } else if bytes[0] == 0x25 && bytes.len() >= 3 && hex_value(bytes[1]) is Some && hex_value(
        bytes[2],
    ) is Some {
        seq![(hex_value(bytes[1])->0 * 16 + hex_value(bytes[2])->0) as u8] + percent_decoded(
            bytes.skip(3),
        )
    } else {
        seq![bytes[0]] + percent_decoded(bytes.drop_first())
    }
}

/// `urlencoding::decode`: the percent-decoded bytes read as UTF-8, `None` when
/// they are not valid UTF-8.
pub open spec fn url_decoded(s: Seq<char>) -> Option<Seq<char>> {
    let bytes = percent_decoded(encode_utf8(s));
    if valid_utf8(bytes) {
        Some(decode_utf8(bytes))
    } else {
        None
    }
}

/// `urlencoding::encode`. Its source and documentation: every byte of the
/// UTF-8 form but ASCII letters, digits, `-`, `_`, `.`, `~` becomes `%XX` with
/// upper-case hex digits.
#[verifier::external_body]
pub(crate) fn url_encode(s: &str) -> (res: String)
    ensures
        res@ == url_encoded(s@),
{
    urlencoding::encode(s).into_owned()
}

/// `urlencoding::decode`, with its `FromUtf8Error` mapped to `None`. Its source:
/// `%` and two hex digits (either case) become that byte, all else is kept, `+`
/// included, and the bytes must then be valid UTF-8.
#[verifier::external_body]
pub(crate) fn url_decode(s: &str) -> (res: Option<String>)
    ensures
        match res {
            Some(d) => url_decoded(s@) == Some(d@),
            None => url_decoded(s@) is None,
        },
{
    match urlencoding::decode(s) {
        Ok(d) => Some(d.into_owned()),
        Err(_) => None,
    }
}

/// The characters that stand for one byte in `percent_encoded`.
pub open spec fn encoded_byte(b: u8) -> Seq<char> {
    if is_unreserved_byte(b) {
        seq![b as char]
    } else {
        seq!['%', hex_digit_upper(b / 16), hex_digit_upper(b % 16)]
    }
}

/// The bytes of ASCII characters.
pub open spec fn ascii_bytes(cs: Seq<char>) -> Seq<u8> {
    cs.map_values(|c: char| c as u8)
}

proof fn lemma_hex_digit(d: u8)
    requires
        d < 16,
    ensures
        '\0' <= hex_digit_upper(d) <= '\u{7f}',
        hex_value(hex_digit_upper(d) as u8) == Some(d),
{
}

proof fn lemma_encoded_byte(b: u8)
    ensures
        is_ascii_chars(encoded_byte(b)),
        percent_decoded(ascii_bytes(encoded_byte(b))) == seq![b],
{
    if is_unreserved_byte(b) {
        let e = ascii_bytes(encoded_byte(b));
        assert(e == seq![b]);
        assert(e.drop_first() == Seq::<u8>::empty());
        assert(percent_decoded(Seq::<u8>::empty()) == Seq::<u8>::empty());
        assert(percent_decoded(e) == seq![b] + percent_decoded(e.drop_first()));
    } else {
        let hi = b / 16;
        let lo = b % 16;
        lemma_hex_digit(hi);
        lemma_hex_digit(lo);
        let e = ascii_bytes(encoded_byte(b));
        assert(e == seq![0x25u8, hex_digit_upper(hi) as u8, hex_digit_upper(lo) as u8]);
        assert(e.skip(3) == Seq::<u8>::empty());
        assert(hi * 16 + lo == b);
        assert(percent_decoded(Seq::<u8>::empty()) == Seq::<u8>::empty());
        assert(e[0] == 0x25 && e.len() >= 3);
        assert(hex_value(e[1]) == Some(hi));
        assert(hex_value(e[2]) == Some(lo));
        assert(percent_decoded(e) == seq![(hi * 16 + lo) as u8] + percent_decoded(e.skip(3)));
    }
}

proof fn lemma_percent_decoded_chunk(c: Seq<u8>, rest: Seq<u8>, b: u8)
    requires
        c == ascii_bytes(encoded_byte(b)),
        percent_decoded(c) == seq![b],
    ensures
        percent_decoded(c + rest) == seq![b] + percent_decoded(rest),
{
    let s = c + rest;
    if is_unreserved_byte(b) {
        assert(s.drop_first() == rest);
    } else {
        assert(s.skip(3) == rest);
        assert(c.skip(3) == Seq::<u8>::empty());
    }
}

proof fn lemma_decode_encoded_bytes(bytes: Seq<u8>)
    ensures
        is_ascii_chars(percent_encoded(bytes)),
        percent_decoded(ascii_bytes(percent_encoded(bytes))) == bytes,
    decreases bytes.len(),
{
    if bytes.len() > 0 {
        let b = bytes[0];
        let rest = bytes.drop_first();
        lemma_decode_encoded_bytes(rest);
        lemma_encoded_byte(b);
        let c = encoded_byte(b);
        assert(percent_encoded(bytes) == c + percent_encoded(rest));
        assert(ascii_bytes(c + percent_encoded(rest)) == ascii_bytes(c) + ascii_bytes(
            percent_encoded(rest),
        ));
        lemma_percent_decoded_chunk(ascii_bytes(c), ascii_bytes(percent_encoded(rest)), b);
        assert(seq![b] + rest == bytes);
    } else {
        assert(ascii_bytes(Seq::<char>::empty()) == Seq::<u8>::empty());
    }
}

/// Decoding undoes encoding: a value put into a `/proxy` link by
/// `urlencoding::encode` comes back unchanged from `urlencoding::decode`.
pub proof fn law_decode_inverts_encode(s: Seq<char>)
    ensures
        url_decoded(url_encoded(s)) == Some(s),
{
    let e = url_encoded(s);
    lemma_decode_encoded_bytes(encode_utf8(s));
    is_ascii_chars_encode_utf8(e);
    assert(encode_utf8(e) == ascii_bytes(e));
    encode_utf8_valid_utf8(s);
    encode_utf8_decode_utf8(s);
}

} // verus!

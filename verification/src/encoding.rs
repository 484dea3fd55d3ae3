//! Text encodings of byte strings: what the standard base64 text of a byte
//! string is, stated as a function on sequences, and the outside calls that
//! produce and read such text.
//!
//! The two base64 calls and the UTF-8 check are not verified here. Their
//! contracts are assumed, and everything else in the crate is proved from them.

use vstd::prelude::*;
use vstd::utf8::{decode_utf8, valid_utf8};

verus! {

/// The character that stands for the six-bit value `v` in the standard
/// alphabet: `A`-`Z`, `a`-`z`, `0`-`9`, `+`, `/`, in this order.
pub open spec fn sextet_char(v: int) -> char {
    if v < 26 {
        ((65 + v) as u8) as char
    } else if v < 52 {
        ((71 + v) as u8) as char
    } else if v < 62 {
        ((v - 4) as u8) as char
    } else if v == 62 {
        '+'
    } else {
        '/'
    }
}

/// A character that base64 text may hold: one of the alphabet, or the padding
/// sign.
pub open spec fn is_base64_char(c: char) -> bool {
    ||| 'A' <= c <= 'Z'
    ||| 'a' <= c <= 'z'
    ||| '0' <= c <= '9'
    ||| c == '+'
    ||| c == '/'
    ||| c == '='
}

/// The four characters for a full group of three bytes.
pub open spec fn full_group(b0: int, b1: int, b2: int) -> Seq<char> {
    seq![
        sextet_char(b0 / 4),
        sextet_char(b0 % 4 * 16 + b1 / 16),
        sextet_char(b1 % 16 * 4 + b2 / 64),
        sextet_char(b2 % 64),
    ]
}

/// The standard base64 text of `bytes`, padded with `=` to a multiple of four
/// characters.
pub open spec fn base64_text(bytes: Seq<u8>) -> Seq<char>
    decreases bytes.len(),
{
    if bytes.len() == 0 {
        Seq::empty()
    } else if bytes.len() == 1 {
        let b0 = bytes[0] as int;
        seq![sextet_char(b0 / 4), sextet_char(b0 % 4 * 16), '=', '=']
    } else if bytes.len() == 2 {
        let b0 = bytes[0] as int;
        let b1 = bytes[1] as int;
        seq![sextet_char(b0 / 4), sextet_char(b0 % 4 * 16 + b1 / 16), sextet_char(b1 % 16 * 4), '=']
    } else {
        full_group(bytes[0] as int, bytes[1] as int, bytes[2] as int) + base64_text(bytes.skip(3))
    }
}

/// The bytes that `text` is the base64 text of, if there are any.
pub open spec fn base64_bytes(text: Seq<char>) -> Option<Seq<u8>> {
    if exists|bytes: Seq<u8>| base64_text(bytes) == text {
        Some(choose|bytes: Seq<u8>| base64_text(bytes) == text)
    } else {
        None
    }
}

/// Different six-bit values have different characters, and none of them is the
/// padding sign.
pub proof fn lemma_sextet_char_distinct(v: int, w: int)
    requires
        0 <= v < 64,
        0 <= w < 64,
    ensures
        sextet_char(v) == sextet_char(w) ==> v == w,
        sextet_char(v) != '=',
        is_base64_char(sextet_char(v)),
{
}

/// Base64 text has four characters for every three bytes begun.
pub proof fn lemma_base64_text_len(bytes: Seq<u8>)
    ensures
        base64_text(bytes).len() == 4 * ((bytes.len() + 2) / 3),
    decreases bytes.len(),
{
    if bytes.len() >= 3 {
        lemma_base64_text_len(bytes.skip(3));
    }
}

/// Base64 text holds only characters of the alphabet and the padding sign.
pub proof fn lemma_base64_text_chars(bytes: Seq<u8>, i: int)
    requires
        0 <= i < base64_text(bytes).len(),
    ensures
        is_base64_char(base64_text(bytes)[i]),
    decreases bytes.len(),
{
    let b0 = bytes[0] as int;
    if bytes.len() == 1 {
        lemma_sextet_char_distinct(b0 / 4, b0 % 4 * 16);
    } else if bytes.len() == 2 {
        let b1 = bytes[1] as int;
        lemma_sextet_char_distinct(b0 / 4, b0 % 4 * 16 + b1 / 16);
        lemma_sextet_char_distinct(b1 % 16 * 4, 0);
    } else if bytes.len() >= 3 {
        let b1 = bytes[1] as int;
        let b2 = bytes[2] as int;
        if i < 4 {
            lemma_sextet_char_distinct(b0 / 4, b0 % 4 * 16 + b1 / 16);
            lemma_sextet_char_distinct(b1 % 16 * 4 + b2 / 64, b2 % 64);
        } else {
            lemma_base64_text_len(bytes.skip(3));
            lemma_base64_text_chars(bytes.skip(3), i - 4);
        }
    }
}

/// Two byte strings with the same base64 text are the same.
pub proof fn lemma_base64_text_injective(a: Seq<u8>, b: Seq<u8>)
    requires
        base64_text(a) == base64_text(b),
    ensures
        a == b,
    decreases a.len(),
{
    lemma_base64_text_len(a);
    lemma_base64_text_len(b);
    let ta = base64_text(a);
    let tb = base64_text(b);
    if a.len() == 0 {
        assert(a =~= b);
    } else {
        let a0 = a[0] as int;
        let b0 = b[0] as int;
        let a1 = if a.len() > 1 { a[1] as int } else { 0 };
        let b1 = if b.len() > 1 { b[1] as int } else { 0 };
        let a2 = if a.len() > 2 { a[2] as int } else { 0 };
        let b2 = if b.len() > 2 { b[2] as int } else { 0 };
        if a.len() >= 3 {
            lemma_base64_text_len(a.skip(3));
        }
        if b.len() >= 3 {
            lemma_base64_text_len(b.skip(3));
        }
        assert(ta[0] == tb[0] && ta[1] == tb[1] && ta[2] == tb[2] && ta[3] == tb[3]);
        lemma_sextet_char_distinct(a0 / 4, b0 / 4);
        lemma_sextet_char_distinct(a0 % 4 * 16 + a1 / 16, b0 % 4 * 16 + b1 / 16);
        lemma_sextet_char_distinct(a1 % 16 * 4 + a2 / 64, b1 % 16 * 4 + b2 / 64);
        lemma_sextet_char_distinct(a2 % 64, b2 % 64);
        if a.len() >= 3 {
            assert(b.len() >= 3);
            assert(a0 == b0 && a1 == b1 && a2 == b2);
            assert(base64_text(a.skip(3)) =~= ta.skip(4));
            assert(base64_text(b.skip(3)) =~= tb.skip(4));
            lemma_base64_text_injective(a.skip(3), b.skip(3));
            assert(a =~= seq![a[0], a[1], a[2]] + a.skip(3));
            assert(b =~= seq![b[0], b[1], b[2]] + b.skip(3));
        } else {
            assert(a.len() == b.len());
            assert(a =~= b);
        }
    }
}

/// Reading base64 text gives back the bytes it was made from.
pub proof fn lemma_base64_bytes_of_text(bytes: Seq<u8>)
    ensures
        base64_bytes(base64_text(bytes)) == Some(bytes),
{
    let text = base64_text(bytes);
    assert(exists|b: Seq<u8>| base64_text(b) == text) by {
        assert(base64_text(bytes) == text);
    }
    let found = choose|b: Seq<u8>| base64_text(b) == text;
    lemma_base64_text_injective(found, bytes);
}

/// Text with a character that base64 never writes is the base64 text of
/// nothing.
pub proof fn lemma_foreign_char_has_no_bytes(text: Seq<char>, i: int)
    requires
        0 <= i < text.len(),
        !is_base64_char(text[i]),
    ensures
        base64_bytes(text) is None,
{
    if exists|bytes: Seq<u8>| base64_text(bytes) == text {
        let bytes = choose|bytes: Seq<u8>| base64_text(bytes) == text;
        lemma_base64_text_chars(bytes, i);
    }
}

/// Makes the error of `base64`'s decoding known to Verus; nothing is read from
/// it.
#[verifier::external_type_specification]
#[verifier::external_body]
pub struct ExDecodeError(base64::DecodeError);

/// Makes the error of `String::from_utf8` known to Verus; nothing is read from
/// it.
#[verifier::external_type_specification]
#[verifier::external_body]
pub struct ExFromUtf8Error(std::string::FromUtf8Error);

/// Calls `Engine::encode` of the `base64` crate on its `STANDARD` engine.
///
/// Assumed, not proved: the string returned is the padded base64 text of
/// `bytes` over the standard alphabet. A slice holds at most `isize::MAX`
/// bytes, so the length that the call computes cannot overflow.
#[verifier::external_body]
pub(crate) fn standard_encode(bytes: &[u8]) -> (text: String)
    ensures
        text@ == base64_text(bytes@),
{
    base64::Engine::encode(&base64::engine::general_purpose::STANDARD, bytes)
}

/// Calls `Engine::decode` of the `base64` crate on its `STANDARD` engine.
///
/// Assumed, not proved: the engine accepts canonical text only (full padding,
/// no stray bits in the last character), so it returns `Ok` with exactly the
/// bytes whose base64 text is `text`, and an error when `text` is the base64
/// text of no byte string.
#[verifier::external_body]
pub(crate) fn standard_decode(text: &str) -> (decoded: Result<Vec<u8>, base64::DecodeError>)
    ensures
        match decoded {
            Ok(bytes) => base64_text(bytes@) == text@,
            Err(_) => forall|bytes: Seq<u8>| base64_text(bytes) != text@,
        },
{
    base64::Engine::decode(&base64::engine::general_purpose::STANDARD, text)
}

/// `String::from_utf8`, as std documents it: the bytes become the string when
/// they are well-formed UTF-8, and an error comes back when they are not.
pub assume_specification[ String::from_utf8 ](bytes: Vec<u8>) -> (text: Result<
    String,
    std::string::FromUtf8Error,
>)
    ensures
        match text {
            Ok(s) => valid_utf8(bytes@) && s@ == decode_utf8(bytes@),
            Err(_) => !valid_utf8(bytes@),
        },
;

} // verus!

//! The API key at rest: every byte of the key is XORed with one fixed mask and
//! the result is written as base64 text.
//!
//! This hides the key from a casual reader of the key file and from nobody
//! else: the mask is public and the encoding carries no secret. It is no
//! encryption.

use crate::encoding::{
    base64_bytes, base64_text, is_base64_char, lemma_base64_bytes_of_text,
    lemma_base64_text_chars, lemma_foreign_char_has_no_bytes, standard_decode, standard_encode,
};
use vstd::prelude::*;
use vstd::utf8::{
    decode_utf8, encode_utf8, encode_utf8_decode_utf8, encode_utf8_valid_utf8, valid_utf8,
};

verus! {

/// The mask that every byte of the key is XORed with.
pub const ENCRYPTION_KEY: u8 = 42;

/// `bytes` with every byte XORed with the mask.
pub open spec fn masked(bytes: Seq<u8>) -> Seq<u8> {
    Seq::new(bytes.len(), |i: int| bytes[i] ^ ENCRYPTION_KEY)
}

/// What is stored for the key `plain`: the base64 text of its masked UTF-8
/// bytes.
pub open spec fn encrypted_text(plain: Seq<char>) -> Seq<char> {
    base64_text(masked(encode_utf8(plain)))
}

/// Why stored text stands for no key.
#[derive(Clone, Copy, Debug, PartialEq, Eq, Structural)]
pub enum KeyError {
    /// The text is the base64 text of no byte string.
    NotBase64,
    /// The text is base64, but the bytes behind the mask are no UTF-8.
    NotUtf8,
}

/// The key that `stored` stands for, or why it stands for none.
pub open spec fn decryption(stored: Seq<char>) -> Result<Seq<char>, KeyError> {
    match base64_bytes(stored) {
        Some(bytes) => if valid_utf8(masked(bytes)) {
            Ok(decode_utf8(masked(bytes)))
        } else {
            Err(KeyError::NotUtf8)
        },
        None => Err(KeyError::NotBase64),
    }
}

/// The key that `stored` stands for, with the empty key for text that stands
/// for none.
pub open spec fn decrypted_text(stored: Seq<char>) -> Seq<char> {
    match decryption(stored) {
        Ok(plain) => plain,
        Err(_) => Seq::empty(),
    }
}

/// `line` without its last character, if that is a line feed. No more than one
/// is taken off, and no other white space.
pub open spec fn without_final_newline(line: Seq<char>) -> Seq<char> {
    if line.len() > 0 && line.last() == '\n' {
        line.drop_last()
    } else {
        line
    }
}

/// Masking twice gives the bytes back.
pub proof fn lemma_masked_twice(bytes: Seq<u8>)
    ensures
        masked(masked(bytes)) == bytes,
{
    assert forall|i: int| 0 <= i < bytes.len() implies masked(masked(bytes))[i] == bytes[i] by {
        let b = bytes[i];
        assert((b ^ 42u8) ^ 42u8 == b) by (bit_vector);
    }
    assert(masked(masked(bytes)) =~= bytes);
}

/// Decrypting what was encrypted gives the key back, whatever the key holds.
pub proof fn lemma_decrypt_inverts_encrypt(plain: Seq<char>)
    ensures
        decryption(encrypted_text(plain)) == Ok::<Seq<char>, KeyError>(plain),
        decrypted_text(encrypted_text(plain)) == plain,
{
    let bytes = encode_utf8(plain);
    lemma_base64_bytes_of_text(masked(bytes));
    lemma_masked_twice(bytes);
    encode_utf8_valid_utf8(plain);
    encode_utf8_decode_utf8(plain);
}

/// Stored text with a character that base64 never writes stands for no key,
/// and so for the empty one.
pub proof fn lemma_foreign_char_decrypts_to_empty(stored: Seq<char>, i: int)
    requires
        0 <= i < stored.len(),
        !is_base64_char(stored[i]),
    ensures
        decryption(stored) == Err::<Seq<char>, KeyError>(KeyError::NotBase64),
        decrypted_text(stored) == Seq::<char>::empty(),
{
    lemma_foreign_char_has_no_bytes(stored, i);
}

/// A key file that holds an encrypted key, followed by a line feed or by
/// nothing, gives that key back.
pub proof fn lemma_key_file_round_trip(plain: Seq<char>, with_newline: bool)
    ensures
        decrypted_text(
            without_final_newline(
                if with_newline {
                    encrypted_text(plain).push('\n')
                } else {
                    encrypted_text(plain)
                },
            ),
        ) == plain,
{
    let text = encrypted_text(plain);
    lemma_decrypt_inverts_encrypt(plain);
    if with_newline {
        assert(text.push('\n').drop_last() =~= text);
    } else if text.len() > 0 {
        lemma_base64_text_chars(masked(encode_utf8(plain)), text.len() - 1);
    }
}

/// XORs every byte with the mask.
fn mask_bytes(bytes: &[u8]) -> (out: Vec<u8>)
    ensures
        out@ == masked(bytes@),
{
    let mut out: Vec<u8> = Vec::with_capacity(bytes.len());
    let mut i: usize = 0;
    while i < bytes.len()
        invariant
            i <= bytes.len(),
            out.len() == i,
            forall|j: int| 0 <= j < i ==> out[j] == bytes[j] ^ ENCRYPTION_KEY,
        decreases bytes.len() - i,
    {
        out.push(bytes[i] ^ ENCRYPTION_KEY);
        i += 1;
    }
    assert(out@ =~= masked(bytes@));
    out
}

/// Encrypts a key for storage: masks its UTF-8 bytes and writes them as
/// base64 text.
pub fn encrypt_api_key(input: &str) -> (encrypted: String)
    ensures
        encrypted@ == encrypted_text(input@),
{
    let cipher = mask_bytes(input.as_bytes());
    standard_encode(cipher.as_slice())
}

/// Decrypts a stored key, and says why where there is none to be had.
pub fn try_decrypt_api_key(encrypted_input: &str) -> (outcome: Result<String, KeyError>)
    ensures
        match outcome {
            Ok(plain) => decryption(encrypted_input@) == Ok::<Seq<char>, KeyError>(plain@),
            Err(why) => decryption(encrypted_input@) == Err::<Seq<char>, KeyError>(why),
        },
{
    match standard_decode(encrypted_input) {
        Ok(decoded) => {
            proof {
                lemma_base64_bytes_of_text(decoded@);
            }
            let bytes = mask_bytes(decoded.as_slice());
            match String::from_utf8(bytes) {
                Ok(text) => Ok(text),
                Err(_) => Err(KeyError::NotUtf8),
            }
        },
        Err(_) => Err(KeyError::NotBase64),
    }
}

/// Decrypts a stored key. Failure is silent: text that cannot be decoded, and
/// bytes that are no UTF-8, give the empty string.
pub fn decrypt_api_key(encrypted_input: &str) -> (plain: String)
    ensures
        plain@ == decrypted_text(encrypted_input@),
        forall|i: int|
            0 <= i < encrypted_input@.len() && !is_base64_char(#[trigger] encrypted_input@[i])
                ==> plain@.len() == 0,
{
    proof {
        assert forall|i: int|
            0 <= i < encrypted_input@.len() && !is_base64_char(
                #[trigger] encrypted_input@[i],
            ) implies decrypted_text(encrypted_input@).len() == 0 by {
            lemma_foreign_char_decrypts_to_empty(encrypted_input@, i);
        }
    }
    match try_decrypt_api_key(encrypted_input) {
        Ok(text) => text,
        Err(_) => String::new(),
    }
}

/// Takes one final line feed off `line`, if there is one.
pub fn strip_final_newline(line: &str) -> (rest: &str)
    ensures
        rest@ == without_final_newline(line@),
{
    let n: usize = line.unicode_len();
    if n > 0 && line.get_char(n - 1) == '\n' {
        line.substring_char(0, n - 1)
    } else {
        line
    }
}

/// The key that the contents of a key file stand for: one final line feed is
/// taken off, and the rest is decrypted as [`decrypt_api_key`] does it.
pub fn get_api_key(stored: &str) -> (key: String)
    ensures
        key@ == decrypted_text(without_final_newline(stored@)),
{
    decrypt_api_key(strip_final_newline(stored))
}

} // verus!

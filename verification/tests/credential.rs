use transcription_albert::credential::{strip_final_newline, try_decrypt_api_key, KeyError};
use transcription_albert::{decrypt_api_key, encrypt_api_key, get_api_key};

#[test]
fn test_encrypt_decrypt() {
    let original = "test-api-key-123";
    let encrypted = encrypt_api_key(original);
    let decrypted = decrypt_api_key(&encrypted);
    assert_eq!(original, decrypted);
}

#[test]
fn encrypt_gives_the_masked_bytes_in_base64() {
    assert_eq!(encrypt_api_key("test-api-key-123"), "Xk9ZXgdLWkMHQU9TBxsYGQ==");
    assert_eq!(encrypt_api_key("abc"), "S0hJ");
}

#[test]
fn encrypt_pads_to_a_multiple_of_four() {
    assert_eq!(encrypt_api_key(""), "");
    assert_eq!(encrypt_api_key("a"), "Sw==");
    assert_eq!(encrypt_api_key("ab"), "S0g=");
}

#[test]
fn encrypt_works_on_the_utf8_bytes() {
    assert_eq!(encrypt_api_key("clé-日本語-🔑"), "SUbpgwfMvY/MtobCgLQH2rW+uw==");
}

#[test]
fn decrypt_reads_a_stored_key() {
    assert_eq!(decrypt_api_key("Xk9ZXgdLWkMHQU9TBxsYGQ=="), "test-api-key-123");
    assert_eq!(decrypt_api_key("S0hJ"), "abc");
    assert_eq!(decrypt_api_key("Sw=="), "a");
    assert_eq!(decrypt_api_key("SUbpgwfMvY/MtobCgLQH2rW+uw=="), "clé-日本語-🔑");
}

#[test]
fn decrypt_differs_from_its_input() {
    assert_ne!(decrypt_api_key("S0hJ"), "S0hJ");
    assert_ne!(encrypt_api_key("abc"), "abc");
}

#[test]
fn decrypt_inverts_encrypt() {
    let keys = [
        "",
        " ",
        "a",
        "ab",
        "abc",
        "abcd",
        "sk-ALBERT 42\n",
        "~!@#$%^&*()_+`-={}|[]\\:\";'<>?,./",
        "clé-日本語-🔑",
        "\u{0}\u{7f}\u{80}\u{7ff}\u{800}\u{ffff}\u{10000}\u{10ffff}",
    ];
    for key in keys {
        assert_eq!(decrypt_api_key(&encrypt_api_key(key)), key);
    }
}

#[test]
fn decrypt_inverts_encrypt_on_printable_ascii() {
    let mut key = String::new();
    for code in 0x20u8..0x7f {
        key.push(code as char);
        assert_eq!(decrypt_api_key(&encrypt_api_key(&key)), key);
    }
}

#[test]
fn decrypt_of_foreign_characters_is_empty() {
    assert_eq!(decrypt_api_key("!!!not base64!!!"), "");
    assert_eq!(decrypt_api_key("S0hJ\n"), "");
    assert_eq!(decrypt_api_key("S0 hJ"), "");
    assert_eq!(decrypt_api_key("S0h-"), "");
    assert_eq!(decrypt_api_key("clé="), "");
}

#[test]
fn decrypt_of_malformed_base64_is_empty() {
    assert_eq!(decrypt_api_key("S"), "");
    assert_eq!(decrypt_api_key("Sw"), "");
    assert_eq!(decrypt_api_key("Sw="), "");
    assert_eq!(decrypt_api_key("Sx=="), "");
    assert_eq!(decrypt_api_key("S0hJ===="), "");
    assert_eq!(decrypt_api_key("Sw==S0hJ"), "");
    assert_eq!(decrypt_api_key("===="), "");
}

#[test]
fn decrypt_of_bytes_that_are_no_text_is_empty() {
    assert_eq!(decrypt_api_key("1Q=="), "");
    assert_eq!(decrypt_api_key("6Q=="), "");
}

#[test]
fn decrypt_of_nothing_is_empty() {
    assert_eq!(decrypt_api_key(""), "");
}

#[test]
fn strip_takes_one_line_feed_off() {
    assert_eq!(strip_final_newline("abc\n"), "abc");
    assert_eq!(strip_final_newline("abc\n\n"), "abc\n");
    assert_eq!(strip_final_newline("\n"), "");
}

#[test]
fn strip_leaves_other_text_alone() {
    assert_eq!(strip_final_newline(""), "");
    assert_eq!(strip_final_newline("abc"), "abc");
    assert_eq!(strip_final_newline("abc\r\n"), "abc\r");
    assert_eq!(strip_final_newline("abc\n "), "abc\n ");
    assert_eq!(strip_final_newline("\nabc"), "\nabc");
    assert_eq!(strip_final_newline("clé"), "clé");
    assert_eq!(strip_final_newline("clé\n"), "clé");
}

#[test]
fn key_file_with_or_without_line_feed() {
    assert_eq!(get_api_key("Xk9ZXgdLWkMHQU9TBxsYGQ=="), "test-api-key-123");
    assert_eq!(get_api_key("Xk9ZXgdLWkMHQU9TBxsYGQ==\n"), "test-api-key-123");
}

#[test]
fn key_file_round_trip() {
    let key = "clé-日本語-🔑";
    let stored = encrypt_api_key(key);
    assert_eq!(get_api_key(&stored), key);
    assert_eq!(get_api_key(&format!("{}\n", stored)), key);
}

#[test]
fn key_file_with_other_white_space_gives_the_empty_key() {
    assert_eq!(get_api_key("Xk9ZXgdLWkMHQU9TBxsYGQ==\r\n"), "");
    assert_eq!(get_api_key("Xk9ZXgdLWkMHQU9TBxsYGQ==\n\n"), "");
    assert_eq!(get_api_key("Xk9ZXgdLWkMHQU9TBxsYGQ== \n"), "");
    assert_eq!(get_api_key(" Xk9ZXgdLWkMHQU9TBxsYGQ=="), "");
}

#[test]
fn empty_key_file_gives_the_empty_key() {
    assert_eq!(get_api_key(""), "");
    assert_eq!(get_api_key("\n"), "");
}

#[test]
fn try_decrypt_gives_the_key() {
    assert_eq!(try_decrypt_api_key("S0hJ"), Ok("abc".to_string()));
    assert_eq!(try_decrypt_api_key(""), Ok(String::new()));
    assert_eq!(
        try_decrypt_api_key(&encrypt_api_key("clé-日本語-🔑")),
        Ok("clé-日本語-🔑".to_string())
    );
}

#[test]
fn try_decrypt_says_when_the_text_is_no_base64() {
    assert_eq!(try_decrypt_api_key("!!!not base64!!!"), Err(KeyError::NotBase64));
    assert_eq!(try_decrypt_api_key("S0hJ\n"), Err(KeyError::NotBase64));
    assert_eq!(try_decrypt_api_key("Sw="), Err(KeyError::NotBase64));
    assert_eq!(try_decrypt_api_key("Sx=="), Err(KeyError::NotBase64));
}

#[test]
fn try_decrypt_says_when_the_bytes_are_no_text() {
    assert_eq!(try_decrypt_api_key("1Q=="), Err(KeyError::NotUtf8));
    assert_eq!(try_decrypt_api_key("6Q=="), Err(KeyError::NotUtf8));
}

use mesh_mailbox::mailbox::{Mailbox, MailboxError, TokenFormat};
use mesh_mailbox::signer::sign;
use mesh_mailbox::token::{
    append_decimal, build_signed_message, build_token, generate_token, token_for, Timestamp,
};

const GOLDEN: &str = "3a30c014fabf9adf8e6d746fa392a19cf3327d8c112c3f54b11d092be189e625";

fn sample_mailbox() -> Mailbox {
    Mailbox::new(
        "https://localhost:8700".to_string(),
        "X26ABC1".to_string(),
        "password".to_string(),
        b"TestKey".to_vec(),
    )
}

fn stamp(text: &str) -> Timestamp {
    Timestamp::new(text.to_string()).unwrap()
}

fn is_lower_hex(text: &str) -> bool {
    text.chars().all(|c| c.is_ascii_digit() || ('a'..='f').contains(&c))
}

#[test]
fn sign_reproduces_the_pinned_digest() {
    let digest = sign(b"TestKey", "X26ABC1:abc:0:password:202401010000").unwrap();
    assert_eq!(digest, GOLDEN);
}

#[test]
fn sign_matches_known_vectors() {
    assert_eq!(
        sign(b"key", "The quick brown fox jumps over the lazy dog").unwrap(),
        "f7bc83f430538424b13298e6aa6fb143ef4d59a14946175997479dbc2d1a3cd8"
    );
    assert_eq!(
        sign(b"", "").unwrap(),
        "b613679a0814d9ec772f95d778c35fc5ff1697c493715653c6c712144292c5ad"
    );
}

#[test]
fn sign_accepts_a_long_key_and_signs_utf8_bytes() {
    let key = vec![b'k'; 200];
    assert_eq!(
        sign(&key, "h\u{e9}llo \u{2713}").unwrap(),
        "bd2e2f8436b22a8158eaa0b6602ae91c9818a951a2e424bdfaeaf4d1a5d44db1"
    );
}

#[test]
fn sign_is_deterministic() {
    let first = sign(b"TestKey", "X26ABC1:abc:0:password:202401010000").unwrap();
    let second = sign(b"TestKey", "X26ABC1:abc:0:password:202401010000").unwrap();
    assert_eq!(first, second);
}

#[test]
fn sign_changes_with_one_character_of_the_message() {
    let changed = sign(b"TestKey", "X26ABC1:abd:0:password:202401010000").unwrap();
    assert_eq!(changed, "ef17600cd38b2c841214063ba640fe0751d2c3473e0c416137c56e73f372e8c6");
    assert_ne!(changed, GOLDEN);
}

#[test]
fn sign_changes_with_one_bit_of_the_key() {
    let changed = sign(b"TestKez", "X26ABC1:abc:0:password:202401010000").unwrap();
    assert_eq!(changed, "d76ff6ca024271b23791ddbb92880243e89f67362fcbab430c41872988ae624e");
    assert_ne!(changed, GOLDEN);
}

#[test]
fn sign_changes_with_each_field() {
    let base = ["X26ABC1", "abc", "0", "password", "202401010000"];
    let other = ["X26ABC2", "abd", "1", "passwore", "202401010001"];
    for k in 0..5 {
        let mut fields = base;
        fields[k] = other[k];
        let digest = sign(b"TestKey", &fields.join(":")).unwrap();
        assert_ne!(digest, GOLDEN);
        assert_eq!(digest.len(), 64);
    }
}

#[test]
fn digest_is_64_lower_case_hex_characters() {
    for message in ["", "a", "X26ABC1:abc:0:password:202401010000", "\u{1F600}"] {
        let digest = sign(b"TestKey", message).unwrap();
        assert_eq!(digest.chars().count(), 64);
        assert!(is_lower_hex(&digest));
    }
}

#[test]
fn signed_message_is_colon_delimited() {
    let message = build_signed_message(
        TokenFormat::ColonDelimited,
        "X26ABC1",
        "abc",
        0,
        "password",
        &stamp("202401010000"),
    );
    assert_eq!(message, "X26ABC1:abc:0:password:202401010000");
}

#[test]
fn signed_message_is_concatenated() {
    let message = build_signed_message(
        TokenFormat::Concatenated,
        "X26ABC1",
        "abc",
        0,
        "password",
        &stamp("202401010000"),
    );
    assert_eq!(message, "X26ABC1abc0password202401010000");
}

#[test]
fn token_end_to_end_colon_delimited() {
    let token = build_token(&sample_mailbox(), "abc", 0, &stamp("202401010000")).unwrap();
    assert_eq!(token, format!("NHSMESH X26ABC1:abc:0:202401010000:{}", GOLDEN));
}

#[test]
fn token_end_to_end_concatenated() {
    let mailbox = sample_mailbox().with_format(TokenFormat::Concatenated);
    let token = build_token(&mailbox, "abc", 0, &stamp("202401010000")).unwrap();
    assert_eq!(
        token,
        "NHSMESH X26ABC1abc202401010000bfe1cb183acfa954072b7abb060ffbae945f275af3dbd7fb0a1fbc65313be97c"
    );
}

#[test]
fn token_carries_the_nonce_count() {
    let token = build_token(&sample_mailbox(), "abc", 42, &stamp("202401010000")).unwrap();
    assert_eq!(
        token,
        "NHSMESH X26ABC1:abc:42:202401010000:10842202591bfc5101ca1985f18c29a36e8c2cd2c5a6f8e5664ef04f156d161b"
    );
}

#[test]
fn token_starts_with_scheme_and_one_space() {
    for format in [TokenFormat::ColonDelimited, TokenFormat::Concatenated] {
        let mailbox = sample_mailbox().with_format(format);
        let token = build_token(&mailbox, "n", 0, &stamp("199912312359")).unwrap();
        assert!(token.starts_with("NHSMESH "));
        assert!(!token.starts_with("NHSMESH  "));
    }
}

#[test]
fn token_is_the_same_for_the_same_inputs() {
    let first = build_token(&sample_mailbox(), "abc", 0, &stamp("202401010000")).unwrap();
    let second = build_token(&sample_mailbox(), "abc", 0, &stamp("202401010000")).unwrap();
    assert_eq!(first, second);
}

#[test]
fn token_depends_on_the_key() {
    let other = Mailbox::new(
        "https://localhost:8700".to_string(),
        "X26ABC1".to_string(),
        "password".to_string(),
        b"TestKez".to_vec(),
    );
    let token = build_token(&other, "abc", 0, &stamp("202401010000")).unwrap();
    assert_eq!(
        token,
        "NHSMESH X26ABC1:abc:0:202401010000:d76ff6ca024271b23791ddbb92880243e89f67362fcbab430c41872988ae624e"
    );
}

#[test]
fn timestamp_accepts_twelve_digits() {
    let t = Timestamp::new("202401010000".to_string()).unwrap();
    assert_eq!(t.as_str(), "202401010000");
    assert!(Timestamp::new("000000000000".to_string()).is_some());
    assert!(Timestamp::new("999999999999".to_string()).is_some());
}

#[test]
fn timestamp_rejects_other_texts() {
    assert!(Timestamp::new("".to_string()).is_none());
    assert!(Timestamp::new("20240101000".to_string()).is_none());
    assert!(Timestamp::new("2024010100000".to_string()).is_none());
    assert!(Timestamp::new("20240101000Z".to_string()).is_none());
    assert!(Timestamp::new("2024-01-0100".to_string()).is_none());
    assert!(Timestamp::new("+10000010100".to_string()).is_none());
    assert!(Timestamp::new("20240101000/".to_string()).is_none());
    assert!(Timestamp::new("20240101000:".to_string()).is_none());
    assert!(Timestamp::new("\u{0662}02401010000".to_string()).is_none());
}

#[test]
fn decimal_text_of_numbers() {
    for (n, text) in [
        (0u64, "0"),
        (7, "7"),
        (9, "9"),
        (10, "10"),
        (101, "101"),
        (12345, "12345"),
        (u64::MAX, "18446744073709551615"),
    ] {
        let mut out = String::from("n=");
        append_decimal(&mut out, n);
        assert_eq!(out, format!("n={}", text));
    }
}

#[test]
fn token_for_uses_count_zero() {
    let token = token_for(&sample_mailbox(), "abc", "202401010000".to_string()).unwrap();
    assert_eq!(token, format!("NHSMESH X26ABC1:abc:0:202401010000:{}", GOLDEN));
}

#[test]
fn token_for_rejects_a_bad_stamp() {
    assert_eq!(
        token_for(&sample_mailbox(), "abc", "20240101000".to_string()),
        Err(MailboxError::TimestampError)
    );
    assert_eq!(
        token_for(&sample_mailbox(), "abc", "20240101T000".to_string()),
        Err(MailboxError::TimestampError)
    );
}

#[test]
fn generated_token_has_five_fields() {
    let mailbox = sample_mailbox();
    let token = generate_token(&mailbox).unwrap();
    let body = token.strip_prefix("NHSMESH ").unwrap();
    let fields: Vec<&str> = body.split(':').collect();
    assert_eq!(fields.len(), 5);
    assert_eq!(fields[0], "X26ABC1");
    assert_eq!(fields[1].len(), 36);
    for (i, c) in fields[1].chars().enumerate() {
        if i == 8 || i == 13 || i == 18 || i == 23 {
            assert_eq!(c, '-');
        } else {
            assert!(c.is_ascii_digit() || ('a'..='f').contains(&c));
        }
    }
    assert_eq!(fields[2], "0");
    assert_eq!(fields[3].len(), 12);
    assert!(fields[3].chars().all(|c| c.is_ascii_digit()));
    let message = format!("X26ABC1:{}:0:password:{}", fields[1], fields[3]);
    assert_eq!(fields[4], sign(b"TestKey", &message).unwrap());
}

#[test]
fn generated_tokens_have_fresh_nonces() {
    let mailbox = sample_mailbox();
    let first = generate_token(&mailbox).unwrap();
    let second = generate_token(&mailbox).unwrap();
    let nonce_of = |token: &str| token.split(':').nth(1).unwrap().to_string();
    assert_ne!(nonce_of(&first), nonce_of(&second));
}

#[test]
fn generated_concatenated_token_matches_its_grammar() {
    let mailbox = sample_mailbox().with_format(TokenFormat::Concatenated);
    let token = generate_token(&mailbox).unwrap();
    let body = token.strip_prefix("NHSMESH X26ABC1").unwrap();
    assert_eq!(body.len(), 36 + 12 + 64);
    let (nonce, rest) = body.split_at(36);
    let (time, signature) = rest.split_at(12);
    assert!(time.chars().all(|c| c.is_ascii_digit()));
    let message = format!("X26ABC1{}0password{}", nonce, time);
    assert_eq!(signature, sign(b"TestKey", &message).unwrap());
}

#[test]
fn mailbox_keeps_what_it_was_given() {
    let mailbox = sample_mailbox();
    assert_eq!(mailbox.url(), "https://localhost:8700");
    assert_eq!(mailbox.id(), "X26ABC1");
    assert_eq!(mailbox.password(), "password");
    assert_eq!(mailbox.shared_key(), b"TestKey");
    assert_eq!(mailbox.format(), TokenFormat::ColonDelimited);
    let other = mailbox.with_format(TokenFormat::Concatenated);
    assert_eq!(other.format(), TokenFormat::Concatenated);
    assert_eq!(other.id(), "X26ABC1");
}

use zero2prod::domain::{SubscriberEmail, SubscriberName, ValidationError, MAX_NAME_LEN};

#[test]
fn a_plain_name_is_accepted() {
    let name = SubscriberName::parse(b"Ursula Le Guin".to_vec()).unwrap();
    assert_eq!(name.as_bytes(), b"Ursula Le Guin");
}

#[test]
fn a_name_at_the_length_bound_is_accepted() {
    let raw = vec![b'a'; MAX_NAME_LEN];
    assert!(SubscriberName::parse(raw).is_ok());
}

#[test]
fn a_name_over_the_length_bound_is_rejected() {
    let raw = vec![b'a'; MAX_NAME_LEN + 1];
    assert!(matches!(
        SubscriberName::parse(raw),
        Err(ValidationError::NameTooLong)
    ));
}

#[test]
fn an_empty_name_is_rejected() {
    assert!(matches!(
        SubscriberName::parse(Vec::new()),
        Err(ValidationError::EmptyName)
    ));
}

#[test]
fn a_whitespace_only_name_is_rejected() {
    assert!(matches!(
        SubscriberName::parse(b" \t \r\n ".to_vec()),
        Err(ValidationError::EmptyName)
    ));
}

#[test]
fn each_forbidden_character_is_rejected() {
    for b in [b'/', b'(', b')', b'"', b'<', b'>', b'\\', b'{', b'}', 0x01u8, 0x7f] {
        let raw = vec![b'a', b, b'b'];
        assert!(
            matches!(
                SubscriberName::parse(raw),
                Err(ValidationError::ForbiddenNameByte)
            ),
            "byte {:#x} should be forbidden",
            b
        );
    }
}

#[test]
fn a_plain_email_is_accepted() {
    let email = SubscriberEmail::parse(b"bo_manev@gmail.com".to_vec()).unwrap();
    assert_eq!(email.as_bytes(), b"bo_manev@gmail.com");
}

#[test]
fn malformed_emails_are_rejected() {
    for raw in [
        &b"not-an-email"[..],
        b"",
        b"@gmail.com",
        b"bo@",
        b"bo@nodot",
        b"two@@signs.com",
        b"two@at@signs.com",
        b"has space@mail.com",
        b"bo.manev-at-gmail.com",
    ] {
        assert!(
            matches!(
                SubscriberEmail::parse(raw.to_vec()),
                Err(ValidationError::InvalidEmail)
            ),
            "{:?} should be rejected",
            String::from_utf8_lossy(raw)
        );
    }
}

use zero2prod::form::{decode_component, parse_form, FormError};

#[test]
fn percent_escapes_and_plus_are_decoded() {
    let decoded = decode_component(b"bo%20manev").unwrap();
    assert_eq!(decoded, b"bo manev".to_vec());
    let decoded = decode_component(b"bo+manev").unwrap();
    assert_eq!(decoded, b"bo manev".to_vec());
    let decoded = decode_component(b"bo_manev%40gmail.com").unwrap();
    assert_eq!(decoded, b"bo_manev@gmail.com".to_vec());
    let decoded = decode_component(b"%7b%7D").unwrap();
    assert_eq!(decoded, b"{}".to_vec());
}

#[test]
fn malformed_escapes_are_refused() {
    assert!(decode_component(b"bo%2").is_none());
    assert!(decode_component(b"bo%zz").is_none());
    assert!(decode_component(b"%").is_none());
}

#[test]
fn a_full_form_body_parses_into_its_fields() {
    let fd = parse_form(b"name=bo%20manev&email=bo_manev%40gmail.com").unwrap();
    assert_eq!(fd.name, b"bo manev".to_vec());
    assert_eq!(fd.email, b"bo_manev@gmail.com".to_vec());
}

#[test]
fn field_order_does_not_matter() {
    let fd = parse_form(b"email=a%40b.c&name=bo").unwrap();
    assert_eq!(fd.name, b"bo".to_vec());
    assert_eq!(fd.email, b"a@b.c".to_vec());
}

#[test]
fn the_first_occurrence_of_a_field_wins() {
    let fd = parse_form(b"email=first%40b.c&email=second%40b.c&name=bo").unwrap();
    assert_eq!(fd.email, b"first@b.c".to_vec());
}

#[test]
fn missing_fields_are_reported() {
    assert!(matches!(parse_form(b"name=bo"), Err(FormError::MissingEmail)));
    assert!(matches!(
        parse_form(b"email=a%40b.c"),
        Err(FormError::MissingName)
    ));
    assert!(matches!(parse_form(b""), Err(FormError::MissingEmail)));
}

#[test]
fn a_malformed_segment_fails_the_whole_form() {
    assert!(matches!(
        parse_form(b"name=bo%2&email=a%40b.c"),
        Err(FormError::MalformedEncoding)
    ));
}

#[test]
fn an_empty_value_is_present_but_empty() {
    let fd = parse_form(b"name=&email=a%40b.c").unwrap();
    assert_eq!(fd.name, Vec::<u8>::new());
}

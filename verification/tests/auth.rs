use zero2prod::auth::{AuthError, CredentialStore, RegisterError};

#[test]
fn the_registered_password_authenticates() {
    let mut creds = CredentialStore::new();
    creds
        .register_operator(7, b"admin".to_vec(), b"everythinghastostartsomewhere")
        .unwrap();
    let r = creds.authenticate(b"admin", b"everythinghastostartsomewhere");
    assert_eq!(r, Ok(7));
}

#[test]
fn a_wrong_password_and_an_unknown_user_fail_identically() {
    let mut creds = CredentialStore::new();
    creds
        .register_operator(7, b"admin".to_vec(), b"everythinghastostartsomewhere")
        .unwrap();
    let wrong_password = creds.authenticate(b"admin", b"guess");
    let unknown_user = creds.authenticate(b"nobody", b"everythinghastostartsomewhere");
    assert_eq!(wrong_password, Err(AuthError::InvalidCredentials));
    assert_eq!(unknown_user, Err(AuthError::InvalidCredentials));
    // the two failures carry the identical error value
    assert_eq!(wrong_password, unknown_user);
}

#[test]
fn usernames_are_unique() {
    let mut creds = CredentialStore::new();
    creds
        .register_operator(1, b"admin".to_vec(), b"first")
        .unwrap();
    let r = creds.register_operator(2, b"admin".to_vec(), b"second");
    assert_eq!(r, Err(RegisterError::DuplicateUsername));
}

#[test]
fn operators_are_independent() {
    let mut creds = CredentialStore::new();
    creds
        .register_operator(1, b"alice".to_vec(), b"wonderland")
        .unwrap();
    creds
        .register_operator(2, b"bob".to_vec(), b"builder")
        .unwrap();
    assert_eq!(creds.authenticate(b"alice", b"wonderland"), Ok(1));
    assert_eq!(creds.authenticate(b"bob", b"builder"), Ok(2));
    assert_eq!(
        creds.authenticate(b"alice", b"builder"),
        Err(AuthError::InvalidCredentials)
    );
}

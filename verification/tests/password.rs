use rust_web_dev::handle_errors::Error;
use rust_web_dev::routes::authentication::{
    hash_password, hashing_result, password_verdict, verify_password,
};

const KNOWN_HASH: &str =
    "$argon2i$v=19$m=4096,t=3,p=1$c29tZXNhbHQ$iWh06vD8Fy27wf9npn6FXWiCX4K6pW6Ue1Bnzz07Z8A";

#[test]
fn hash_verifies_against_its_password() {
    let hash = hash_password(b"correct horse").unwrap();
    assert_eq!(verify_password(&hash, b"correct horse"), Ok(true));
}

#[test]
fn hash_does_not_verify_against_another_password() {
    let hash = hash_password(b"correct horse").unwrap();
    assert_eq!(verify_password(&hash, b"correct horsf"), Ok(false));
    assert_eq!(verify_password(&hash, b""), Ok(false));
    assert_eq!(verify_password(&hash, b"correct horse "), Ok(false));
}

#[test]
fn two_hashes_of_one_password_differ_and_both_verify() {
    let first = hash_password(b"p4ssw0rd").unwrap();
    let second = hash_password(b"p4ssw0rd").unwrap();
    assert_ne!(first, second);
    assert_eq!(verify_password(&first, b"p4ssw0rd"), Ok(true));
    assert_eq!(verify_password(&second, b"p4ssw0rd"), Ok(true));
}

#[test]
fn empty_password_can_be_hashed() {
    let hash = hash_password(b"").unwrap();
    assert_eq!(verify_password(&hash, b""), Ok(true));
    assert_eq!(verify_password(&hash, b"x"), Ok(false));
}

#[test]
fn hash_describes_itself_and_hides_the_password() {
    let hash = hash_password(b"hunter2hunter2").unwrap();
    assert!(hash.starts_with("$argon2i$v=19$m=4096,t=3,p=1$"));
    assert!(!hash.contains("hunter2"));
    let parts: Vec<&str> = hash.split('$').collect();
    assert_eq!(parts.len(), 6);
    // 32 bytes of salt and of digest, in base64 without padding
    assert_eq!(parts[4].len(), 43);
    assert_eq!(parts[5].len(), 43);
}

#[test]
fn known_hash_verifies() {
    assert_eq!(verify_password(KNOWN_HASH, b"password"), Ok(true));
    assert_eq!(verify_password(KNOWN_HASH, b"Password"), Ok(false));
}

#[test]
fn malformed_hash_is_a_hashing_error_not_a_wrong_password() {
    assert_eq!(verify_password("", b"password"), Err(Error::HashingError));
    assert_eq!(
        verify_password("password", b"password"),
        Err(Error::HashingError)
    );
    assert_eq!(
        verify_password(&KNOWN_HASH[1..], b"password"),
        Err(Error::HashingError)
    );
    assert_eq!(
        verify_password(&KNOWN_HASH.replace("argon2i", "argon3"), b"password"),
        Err(Error::HashingError)
    );
    assert_eq!(
        verify_password(&KNOWN_HASH.replace("v=19", "v=20"), b"password"),
        Err(Error::HashingError)
    );
    assert_eq!(
        verify_password(&KNOWN_HASH.replace("t=3", "t=0"), b"password"),
        Err(Error::HashingError)
    );
    assert_eq!(
        verify_password(&KNOWN_HASH.replace("c29tZXNhbHQ", "c29t*XNhbHQ"), b"password"),
        Err(Error::HashingError)
    );
}

#[test]
fn damaged_digest_is_a_wrong_password() {
    let damaged = KNOWN_HASH.replace("iWh06", "iWh07");
    assert_eq!(verify_password(&damaged, b"password"), Ok(false));
}

#[test]
fn nothing_from_the_hashing_library_is_a_hashing_error() {
    assert_eq!(hashing_result(Some(true)), Ok(true));
    assert_eq!(hashing_result(Some(false)), Ok(false));
    assert_eq!(hashing_result::<bool>(None), Err(Error::HashingError));
    assert_eq!(
        hashing_result(Some(String::from("$argon2i$"))),
        Ok(String::from("$argon2i$"))
    );
}

#[test]
fn verdict_on_a_password_at_login() {
    assert_eq!(password_verdict(Ok(true)), Ok(()));
    assert_eq!(password_verdict(Ok(false)), Err(Error::Unauthorized));
    assert_eq!(
        password_verdict(Err(Error::HashingError)),
        Err(Error::HashingError)
    );
}

use forum_core::util::hash::{compare, compared, hash_password, hashed, HashError};

#[test]
fn a_password_compares_equal_to_its_hash() {
    let hash = hash_password("hunter2").expect("a hash");
    assert_ne!(hash, "hunter2");
    assert!(hash.starts_with("$2b$10$"));
    assert_eq!(hash.len(), 60);
    assert_eq!(compare("hunter2", &hash), Ok(true));
    assert_eq!(compare("hunter3", &hash), Ok(false));
    assert_eq!(compare("", &hash), Ok(false));
}

#[test]
fn two_hashes_of_one_password_differ() {
    let first = hash_password("hunter2").expect("a hash");
    let second = hash_password("hunter2").expect("a hash");
    assert_ne!(first, second);
    assert_eq!(compare("hunter2", &second), Ok(true));
}

#[test]
fn hashes_of_other_makers_are_read() {
    let hash = "$2a$04$UuTkLRZZ6QofpDOlMz32MuuxEHA43WOemOYHPz6.SjsVsyO1tDU96";
    assert_eq!(compare("password", hash), Ok(true));
    let hash = "$2b$04$EGdrhbKUv8Oc9vGiXX0HQOxSg445d458Muh7DAHskb6QbtCvdxcie";
    assert_eq!(compare("correctbatteryhorsestapler", hash), Ok(true));
    assert_eq!(compare("wrong", hash), Ok(false));
}

#[test]
fn text_that_is_no_hash_is_an_error() {
    for hash in [
        "",
        "hunter2",
        "$2a$04$n4Uy0eSnMfvnESYL.bLwuuj0U/ETSsoTpRT9GVk$5bektyVVa5xnIi",
        "$2a$ab$n4Uy0eSnMfvnESYL.bLwuuj0U/ETSsoTpRT9GVk5bektyVVa5xnIi",
        "$9z$04$n4Uy0eSnMfvnESYL.bLwuuj0U/ETSsoTpRT9GVk5bektyVVa5xnIi",
        "$2a$04$n4Uy0eSnMfvnESYL.bLwuuj0U/ETSsoTpRT9GVk5bektyVVa5xnIerererereri",
    ] {
        assert_eq!(compare("correctbatteryhorsestapler", hash), Err(HashError));
    }
}

#[test]
fn outcomes_are_handed_on() {
    assert_eq!(hashed(Ok(String::from("abc"))), Ok(String::from("abc")));
    assert_eq!(compared(Ok(true)), Ok(true));
    assert_eq!(compared(Ok(false)), Ok(false));
    assert_eq!(hashed(Err(bcrypt::BcryptError::InvalidSaltLen(3))), Err(HashError));
    assert_eq!(compared(Err(bcrypt::BcryptError::CostNotAllowed(99))), Err(HashError));
}

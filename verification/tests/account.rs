use ekilox::account::{
    access_stored, authenticate_user, authorization, check_password, create_user,
    generate_random_hex, hash_password, hashed, login_verdict, new_user, password_verdict,
    registration_verdict, user_stored,
};
use ekilox::error::ApiError;
use ekilox::session::{Lookup, User};

fn stored(alias: &str, email: &str, hash: &str) -> User {
    User {
        _id: Some("65f0aa10c3d2e4b5a6978812".to_string()),
        alias: alias.to_string(),
        email: email.to_string(),
        password: hash.to_string(),
        full_name: "Somebody".to_string(),
        created_at: 1,
        updated_at: 1,
    }
}

fn is_lower_hex(s: &str) -> bool {
    s.chars().all(|c| c.is_ascii_digit() || ('a'..='f').contains(&c))
}

#[test]
fn random_hex_has_an_even_number_of_digits() {
    assert_eq!(generate_random_hex(0), "");
    assert_eq!(generate_random_hex(1), "");
    assert_eq!(generate_random_hex(2).len(), 2);
    assert_eq!(generate_random_hex(7).len(), 6);
    let code = generate_random_hex(32);
    assert_eq!(code.len(), 32);
    assert!(is_lower_hex(&code));
    assert_ne!(generate_random_hex(32), generate_random_hex(32));
}

#[test]
fn password_rules_are_held_in_order() {
    let e = check_password("Ab1!").unwrap_err();
    assert_eq!((e.code, e.message.as_str()), (400, "Password must be at least 8 characters long"));
    let e = check_password("abcdefg1!").unwrap_err();
    assert_eq!(
        (e.code, e.message.as_str()),
        (400, "Password must contain at least one uppercase letter")
    );
    let e = check_password("ABCDEFG1!").unwrap_err();
    assert_eq!(
        (e.code, e.message.as_str()),
        (400, "Password must contain at least one lowercase letter")
    );
    let e = check_password("Abcdefgh!").unwrap_err();
    assert_eq!((e.code, e.message.as_str()), (400, "Password must contain at least one digit"));
    assert!(check_password("P4ssw0rd!").is_ok());
    assert!(check_password("Abcdefg1").is_ok());
}

#[test]
fn password_length_counts_bytes() {
    assert!(check_password("\u{e9}\u{e9}Aa1!").is_ok());
    let e = check_password("Aa1!xyz").unwrap_err();
    assert_eq!(e.message, "Password must be at least 8 characters long");
}

#[test]
fn hashed_password_logs_in_and_another_does_not() {
    let hash = hash_password("P4ssw0rd!", "john_doe", "pepper").unwrap();
    assert_eq!(hash.len(), 60);
    assert!(hash.starts_with("$2b$12$"));
    let user = stored("john_doe", "john.doe@example.com", &hash);

    let (who, auth) = authenticate_user(Lookup::Found(user.duplicate()), "P4ssw0rd!", "pepper")
        .unwrap();
    assert_eq!(who.alias, "john_doe");
    assert_eq!(auth.user_id, "65f0aa10c3d2e4b5a6978812");
    assert_eq!(auth.code.len(), 32);
    assert!(is_lower_hex(&auth.code));

    let e = authenticate_user(Lookup::Found(user.duplicate()), "P4ssw0rd?", "pepper").unwrap_err();
    assert_eq!((e.code, e.message.as_str()), (404, "Username, email, or password not found"));
    let e = authenticate_user(Lookup::Found(user), "P4ssw0rd!", "salt").unwrap_err();
    assert_eq!((e.code, e.message.as_str()), (404, "Username, email, or password not found"));
}

#[test]
fn login_refusals() {
    let e = authenticate_user(Lookup::Missing, "P4ssw0rd!", "pepper").unwrap_err();
    assert_eq!((e.code, e.message.as_str()), (404, "Username, email, or password not found"));
    let e = authenticate_user(Lookup::Failed("no route".to_string()), "x", "pepper").unwrap_err();
    assert_eq!((e.code, e.message.as_str()), (500, "Failed to query MongoDB: no route"));
    let broken = stored("john_doe", "john.doe@example.com", "not a hash");
    let e = authenticate_user(Lookup::Found(broken), "P4ssw0rd!", "pepper").unwrap_err();
    assert_eq!(e.code, 500);
    assert!(e.message.starts_with("Hash verification error: "), "{}", e.message);
    assert!(e.message.len() > "Hash verification error: ".len());
}

#[test]
fn registration_drafts_a_record_without_identifier() {
    let u = create_user(
        Lookup::Missing,
        "new_user".to_string(),
        "new@example.com".to_string(),
        "New User".to_string(),
        "P4ssw0rd!".to_string(),
        "pepper",
        1234,
    )
    .unwrap();
    assert!(u._id.is_none());
    assert_eq!(u.alias, "new_user");
    assert_eq!(u.email, "new@example.com");
    assert_eq!(u.full_name, "New User");
    assert_eq!((u.created_at, u.updated_at), (1234, 1234));
    assert_ne!(u.password, "P4ssw0rd!");
    let mut with_id = u.duplicate();
    with_id._id = Some("65f0aa10c3d2e4b5a6978899".to_string());
    assert!(authenticate_user(Lookup::Found(with_id), "P4ssw0rd!", "pepper").is_ok());
}

#[test]
fn registration_refusals_come_in_order() {
    let taken = stored("john_doe", "john.doe@example.com", "h");
    let e = create_user(
        Lookup::Found(taken.duplicate()),
        "john_doe".to_string(),
        "john.doe@example.com".to_string(),
        "J".to_string(),
        "weak".to_string(),
        "pepper",
        1,
    )
    .unwrap_err();
    assert_eq!((e.code, e.message.as_str()), (409, "A user with this username already exists"));
    let e = create_user(
        Lookup::Found(taken.duplicate()),
        "johnny".to_string(),
        "john.doe@example.com".to_string(),
        "J".to_string(),
        "weak".to_string(),
        "pepper",
        1,
    )
    .unwrap_err();
    assert_eq!((e.code, e.message.as_str()), (409, "A user with this email already exists"));
    let e = create_user(
        Lookup::Found(taken),
        "johnny".to_string(),
        "johnny@example.com".to_string(),
        "J".to_string(),
        "weak".to_string(),
        "pepper",
        1,
    )
    .unwrap_err();
    assert_eq!((e.code, e.message.as_str()), (400, "Password must be at least 8 characters long"));
    let e = create_user(
        Lookup::Failed("down".to_string()),
        "johnny".to_string(),
        "johnny@example.com".to_string(),
        "J".to_string(),
        "P4ssw0rd!".to_string(),
        "pepper",
        1,
    )
    .unwrap_err();
    assert_eq!((e.code, e.message.as_str()), (500, "Failed to query MongoDB: down"));
}

#[test]
fn stored_registration_and_login() {
    let u = stored("a", "b", "c");
    assert_eq!(user_stored(u.duplicate(), Lookup::Found(true)).unwrap().alias, "a");
    let e = user_stored(u.duplicate(), Lookup::Found(false)).unwrap_err();
    assert_eq!((e.code, e.message.as_str()), (500, "Failed to retrieve inserted ID"));
    let e = user_stored(u.duplicate(), Lookup::Missing).unwrap_err();
    assert_eq!((e.code, e.message.as_str()), (500, "Failed to retrieve inserted ID"));
    let e = user_stored(u.duplicate(), Lookup::Failed("dup key".to_string())).unwrap_err();
    assert_eq!(
        (e.code, e.message.as_str()),
        (500, "Failed to insert user into MongoDB: dup key")
    );
    assert_eq!(access_stored(u.duplicate(), Ok(())).unwrap().email, "b");
    let e = access_stored(u, Err("down".to_string())).unwrap_err();
    assert_eq!(
        (e.code, e.message.as_str()),
        (500, "Failed to insert access token into MongoDB: down")
    );
}

#[test]
fn each_password_rule_has_its_words() {
    let said = |r: Result<(), ApiError>| r.map_err(|e| (e.code, e.message));
    assert_eq!(
        said(password_verdict(7, true, true, true, true)),
        Err((400, "Password must be at least 8 characters long".to_string()))
    );
    assert_eq!(
        said(password_verdict(8, false, false, false, false)),
        Err((400, "Password must contain at least one uppercase letter".to_string()))
    );
    assert_eq!(
        said(password_verdict(8, true, false, false, false)),
        Err((400, "Password must contain at least one lowercase letter".to_string()))
    );
    assert_eq!(
        said(password_verdict(8, true, true, false, false)),
        Err((400, "Password must contain at least one digit".to_string()))
    );
    assert_eq!(
        said(password_verdict(usize::MAX, true, true, true, false)),
        Err((400, "Password must contain at least one special character".to_string()))
    );
    assert_eq!(said(password_verdict(8, true, true, true, true)), Ok(()));
    assert_eq!(
        said(password_verdict(0, false, false, false, false)),
        Err((400, "Password must be at least 8 characters long".to_string()))
    );
}

#[test]
fn hashing_failure_is_a_500() {
    assert_eq!(hashed(Ok("$2b$12$abc".to_string())).unwrap(), "$2b$12$abc");
    let e = hashed(Err("Cost needs to be between 4 and 31, got 99".to_string())).unwrap_err();
    assert_eq!(
        (e.code, e.message.as_str()),
        (500, "Hashing error: Cost needs to be between 4 and 31, got 99")
    );
}

#[test]
fn password_check_decides_the_login() {
    assert!(login_verdict(Ok(true)).is_ok());
    let e = login_verdict(Ok(false)).unwrap_err();
    assert_eq!((e.code, e.message.as_str()), (404, "Username, email, or password not found"));
    let e = login_verdict(Err("Invalid hash: bad".to_string())).unwrap_err();
    assert_eq!((e.code, e.message.as_str()), (500, "Hash verification error: Invalid hash: bad"));
}

#[test]
fn registration_verdict_puts_the_store_before_the_password() {
    let weak = || Err(ApiError::new(400, "Password must contain at least one digit"));
    let taken = stored("john_doe", "john.doe@example.com", "h");
    let e = registration_verdict(&Lookup::Failed("x".to_string()), "a", "b", weak()).unwrap_err();
    assert_eq!((e.code, e.message.as_str()), (500, "Failed to query MongoDB: x"));
    let e = registration_verdict(&Lookup::Found(taken.duplicate()), "john_doe", "b", weak())
        .unwrap_err();
    assert_eq!(e.code, 409);
    let e = registration_verdict(&Lookup::Found(taken.duplicate()), "a", "b", weak()).unwrap_err();
    assert_eq!((e.code, e.message.as_str()), (400, "Password must contain at least one digit"));
    assert!(registration_verdict(&Lookup::Found(taken), "a", "b", Ok(())).is_ok());
    assert!(registration_verdict(&Lookup::Missing, "a", "b", Ok(())).is_ok());
}

#[test]
fn new_record_and_authorization() {
    let u = new_user(
        "al".to_string(),
        "al@example.com".to_string(),
        "Al".to_string(),
        "hash".to_string(),
        5,
    );
    assert!(u._id.is_none());
    assert_eq!((u.alias.as_str(), u.email.as_str(), u.full_name.as_str()), ("al", "al@example.com", "Al"));
    assert_eq!((u.password.as_str(), u.created_at, u.updated_at), ("hash", 5, 5));
    let auth = authorization(&stored("a", "b", "c"), "00ff".to_string());
    assert_eq!(auth.user_id, "65f0aa10c3d2e4b5a6978812");
    assert_eq!(auth.code, "00ff");
}

//! Registration and login against the real hashing and signing crates.

use clinic_scheduler::model::{AccountType, Error, LoginData, RegisterData};
use clinic_scheduler::store::DB;

fn sample_registration() -> RegisterData {
    RegisterData {
        name: "John Doe".to_string(),
        email: "john.doe@example.com".to_string(),
        password: "hunter2hunter2".to_string(),
        account_type: AccountType::Patient,
    }
}

#[test]
fn test_registeration() {
    let mut db = DB::default();

    let r = sample_registration();
    db.register(&r).unwrap();
    let jwt = db
        .login(&LoginData { email: r.email.clone(), password: r.password.clone() })
        .unwrap();

    println!("{}", jwt);
}

#[test]
fn second_register_with_same_email_fails() {
    let mut db = DB::default();
    let r = sample_registration();
    assert_eq!(db.register(&r), Ok(()));

    let mut again = sample_registration();
    again.name = "Jane Doe".to_string();
    again.password = "different-password".to_string();
    assert_eq!(db.register(&again), Err(Error::DuplicateEmail));

    let mut other = sample_registration();
    other.email = "jane.doe@example.com".to_string();
    assert_eq!(db.register(&other), Ok(()));
}

#[test]
fn login_with_wrong_password_fails() {
    let mut db = DB::default();
    let r = sample_registration();
    db.register(&r).unwrap();

    let bad = db.login(&LoginData { email: r.email.clone(), password: "wrong".to_string() });
    assert_eq!(bad, Err(Error::InvalidCredentials));
}

#[test]
fn login_with_unknown_email_fails() {
    let db = DB::default();
    let r = db.login(&LoginData {
        email: "nobody@example.com".to_string(),
        password: "whatever".to_string(),
    });
    assert_eq!(r, Err(Error::InvalidCredentials));
}

#[test]
fn register_and_login_through_the_api() {
    let mut db = DB::default();
    let r = sample_registration();
    assert_eq!(clinic_scheduler::api::register(&mut db, &r), Ok(()));
    assert_eq!(clinic_scheduler::api::register(&mut db, &r), Err(Error::DuplicateEmail));
    let token = clinic_scheduler::api::login(
        &db,
        &LoginData { email: r.email.clone(), password: r.password.clone() },
    )
    .unwrap();
    let claims = clinic_scheduler::session::decode_jwt(&token).unwrap();
    assert_eq!(claims.sub, 1);
    assert_eq!(claims.account_type, AccountType::Patient);
}

#[test]
fn password_hash_round_trip() {
    let h = clinic_scheduler::credential::password_hash("open sesame").unwrap();
    // The encoded hash embeds its own salt; verification is pure.
    assert_eq!(clinic_scheduler::credential::verify_password(&h, "open sesame"), Ok(true));
    assert_eq!(clinic_scheduler::credential::verify_password(&h, "open sesame!"), Ok(false));
    // A fresh random salt per hash: hashing twice gives different text.
    let h2 = clinic_scheduler::credential::password_hash("open sesame").unwrap();
    assert_ne!(h, h2);
    assert_eq!(clinic_scheduler::credential::verify_password(&h2, "open sesame"), Ok(true));
}

#[test]
fn malformed_hash_is_an_error() {
    assert_eq!(
        clinic_scheduler::credential::verify_password("not-an-encoded-hash", "pw"),
        Err(Error::HashingError)
    );
}

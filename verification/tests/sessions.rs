//! Token issue and verification against the real signing crate.

use clinic_scheduler::auth::{AccountGuard, ADMIN, PATIENT};
use clinic_scheduler::model::{AccountType, Error};
use clinic_scheduler::session::{decode_jwt, issue_token};

#[test]
fn token_round_trip() {
    let token = issue_token(7, AccountType::Doctor).unwrap();
    let claims = decode_jwt(&token).unwrap();
    assert_eq!(claims.sub, 7);
    assert_eq!(claims.account_type, AccountType::Doctor);
}

#[test]
fn garbage_token_is_rejected() {
    assert_eq!(decode_jwt("garbage"), Err(Error::TokenError));
    assert_eq!(decode_jwt(""), Err(Error::TokenError));
    assert_eq!(decode_jwt("aaa.bbb.ccc"), Err(Error::TokenError));
}

#[test]
fn tampered_token_is_rejected() {
    let token = issue_token(7, AccountType::Admin).unwrap();
    let mut tampered = token.clone();
    // Flip a character of the signature part.
    let last = tampered.pop().unwrap();
    tampered.push(if last == 'A' { 'B' } else { 'A' });
    assert!(decode_jwt(&tampered).is_err());
}

#[test]
fn guard_admits_only_its_role() {
    let patient_token = issue_token(2, AccountType::Patient).unwrap();
    assert!(AccountGuard::<PATIENT>::from_token(&patient_token).is_ok());
    assert!(AccountGuard::<ADMIN>::from_token(&patient_token).is_err());

    let admin_token = issue_token(3, AccountType::Admin).unwrap();
    let guard = AccountGuard::<ADMIN>::from_token(&admin_token).unwrap();
    assert_eq!(guard.claims_ref().sub, 3);
    assert_eq!(guard.claims_ref().account_type, AccountType::Admin);
}

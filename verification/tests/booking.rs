//! The booking admission rule: duration bounds, the daily quota, and the
//! end-to-end register/login/book path.

use clinic_scheduler::api::{book_doctor, BookInput};
use clinic_scheduler::auth::{AccountGuard, PATIENT};
use clinic_scheduler::dates::parse_timestamp;
use clinic_scheduler::model::{AccountType, Claims, Error, LoginData, RegisterData, Timestamp};
use clinic_scheduler::session::decode_jwt;
use clinic_scheduler::store::DB;

fn register_account(db: &mut DB, email: &str, account_type: AccountType) {
    db.register(&RegisterData {
        name: email.to_string(),
        email: email.to_string(),
        password: "correct horse battery staple".to_string(),
        account_type,
    })
    .unwrap();
}

fn patient_guard(sub: i32) -> AccountGuard<PATIENT> {
    AccountGuard::<PATIENT>::try_new(Claims { sub, account_type: AccountType::Patient, iat: 0 })
        .unwrap()
}

#[test]
fn duration_bounds_reject_regardless_of_quota() {
    let mut db = DB::default();
    register_account(&mut db, "d@example.com", AccountType::Doctor);
    let start = parse_timestamp("2024-06-01T09:00:00+00:00").unwrap();
    // An empty day: only the duration can be at fault.
    assert!(!db.is_valid_appointment_request(1, &start, 14));
    assert!(!db.is_valid_appointment_request(1, &start, 121));
    assert!(!db.is_valid_appointment_request(1, &start, 0));
    assert!(!db.is_valid_appointment_request(1, &start, -30));
    assert!(db.is_valid_appointment_request(1, &start, 15));
    assert!(db.is_valid_appointment_request(1, &start, 120));
}

#[test]
fn booking_scenario_fills_the_day_to_the_minute_ceiling() {
    let mut db = DB::default();
    register_account(&mut db, "doctor@example.com", AccountType::Doctor);
    register_account(&mut db, "patient@example.com", AccountType::Patient);

    // The patient logs in; the recovered claims drive the guard.
    let token = db
        .login(&LoginData {
            email: "patient@example.com".to_string(),
            password: "correct horse battery staple".to_string(),
        })
        .unwrap();
    let claims = decode_jwt(&token).unwrap();
    assert_eq!(claims.sub, 2);
    assert_eq!(claims.account_type, AccountType::Patient);
    let guard = AccountGuard::<PATIENT>::try_new(claims).unwrap();

    // Eight one-hour bookings on one day: the eighth reaches exactly 480
    // minutes and is still admitted.
    for hour in 9..17 {
        let text = format!("2024-06-01T{:02}:00:00+00:00", hour);
        let start = parse_timestamp(&text).unwrap();
        let r = book_doctor(&mut db, 1, &BookInput { start_date: start, duration: 60 }, &guard);
        assert!(r.is_ok(), "booking at hour {} should be admitted", hour);
    }
    assert_eq!(db.appointments.len(), 8);

    // The ninth booking on the same day would pass 480 minutes: refused.
    let start = parse_timestamp("2024-06-01T18:00:00+00:00").unwrap();
    let r = book_doctor(&mut db, 1, &BookInput { start_date: start, duration: 60 }, &guard);
    assert_eq!(r, Err(Error::SlotUnavailable));
    // Even the shortest appointment no longer fits in the minutes.
    let r = book_doctor(&mut db, 1, &BookInput { start_date: start, duration: 15 }, &guard);
    assert_eq!(r, Err(Error::SlotUnavailable));

    // Another calendar day is unaffected.
    let start = parse_timestamp("2024-06-02T09:00:00+00:00").unwrap();
    assert!(book_doctor(&mut db, 1, &BookInput { start_date: start, duration: 60 }, &guard).is_ok());
}

#[test]
fn booking_scenario_fills_the_day_to_the_count_ceiling() {
    let mut db = DB::default();
    register_account(&mut db, "doctor@example.com", AccountType::Doctor);
    register_account(&mut db, "patient@example.com", AccountType::Patient);
    let guard = patient_guard(2);

    // Twelve quarter-hour bookings: 12 appointments, 180 minutes.
    for n in 0..12 {
        let text = format!("2024-06-01T{:02}:{:02}:00+00:00", 9 + n / 4, 15 * (n % 4));
        let start = parse_timestamp(&text).unwrap();
        let r = book_doctor(&mut db, 1, &BookInput { start_date: start, duration: 15 }, &guard);
        assert!(r.is_ok(), "booking {} should be admitted", n);
    }

    // The thirteenth is refused on the count, with minutes to spare.
    let start = parse_timestamp("2024-06-01T15:00:00+00:00").unwrap();
    let r = book_doctor(&mut db, 1, &BookInput { start_date: start, duration: 15 }, &guard);
    assert_eq!(r, Err(Error::SlotUnavailable));
}

#[test]
fn booking_checks_the_references() {
    let mut db = DB::default();
    register_account(&mut db, "doctor@example.com", AccountType::Doctor);
    register_account(&mut db, "patient@example.com", AccountType::Patient);
    let start = parse_timestamp("2024-06-01T09:00:00+00:00").unwrap();

    // No such doctor.
    let guard = patient_guard(2);
    let r = book_doctor(&mut db, 99, &BookInput { start_date: start, duration: 60 }, &guard);
    assert_eq!(r, Err(Error::NotFound));
    // The doctor id names a patient account.
    let r = book_doctor(&mut db, 2, &BookInput { start_date: start, duration: 60 }, &guard);
    assert_eq!(r, Err(Error::NotFound));
    // The claimed subject is not a patient account.
    let ghost_guard = patient_guard(99);
    let r = book_doctor(&mut db, 1, &BookInput { start_date: start, duration: 60 }, &ghost_guard);
    assert_eq!(r, Err(Error::NotFound));
}

#[test]
fn cancelled_minutes_free_the_day() {
    let mut db = DB::default();
    register_account(&mut db, "doctor@example.com", AccountType::Doctor);
    register_account(&mut db, "patient@example.com", AccountType::Patient);
    let guard = patient_guard(2);

    let mut last_id = 0;
    for hour in 9..17 {
        let text = format!("2024-06-01T{:02}:00:00+00:00", hour);
        let start = parse_timestamp(&text).unwrap();
        last_id = book_doctor(&mut db, 1, &BookInput { start_date: start, duration: 60 }, &guard)
            .unwrap();
    }
    let start = parse_timestamp("2024-06-01T18:00:00+00:00").unwrap();
    assert_eq!(
        book_doctor(&mut db, 1, &BookInput { start_date: start, duration: 60 }, &guard),
        Err(Error::SlotUnavailable)
    );

    // Cancelling one appointment frees its minutes for the day.
    db.set_appointment_status(last_id, clinic_scheduler::model::AppointmentStatus::Cancelled)
        .unwrap();
    assert!(book_doctor(&mut db, 1, &BookInput { start_date: start, duration: 60 }, &guard).is_ok());
}

#[test]
fn timestamp_parsing_reads_the_offset_date() {
    let t: Timestamp = parse_timestamp("2024-06-01T09:30:00+02:00").unwrap();
    assert_eq!(t.date.year, 2024);
    assert_eq!(t.date.month, 6);
    assert_eq!(t.date.day, 1);
    assert_eq!(t.minute_of_day, 9 * 60 + 30);
    assert_eq!(t.offset_minutes, 120);

    // The date is taken in the stored offset, not normalized to UTC.
    let late: Timestamp = parse_timestamp("2024-06-01T23:30:00-05:00").unwrap();
    assert_eq!(late.date.day, 1);
    assert_eq!(late.offset_minutes, -300);

    assert!(parse_timestamp("2024-06-01").is_err());
    assert!(parse_timestamp("not a time").is_err());
}

//! Daily statistics, the availability filter and the two admin reports.

use clinic_scheduler::api::{
    available_doctors, book_doctor, doctors, doctor_info, stats_greaterthan_hours,
    stats_top_appointments, BookInput, DateInput,
};
use clinic_scheduler::auth::{AccountGuard, ADMIN, ALL, PATIENT};
use clinic_scheduler::dates::{parse_date, parse_timestamp};
use clinic_scheduler::model::{AccountType, Claims, Date, Error, RegisterData};
use clinic_scheduler::store::DB;

fn claims(sub: i32, account_type: AccountType) -> Claims {
    Claims { sub, account_type, iat: 0 }
}

/// Doctor 1, doctor 2, patient 3; `per_doctor` one-hour bookings on
/// 2024-06-01 for each doctor.
fn store_with_bookings(hours_d1: u32, hours_d2: u32) -> DB {
    let mut db = DB::default();
    for (i, role) in
        [AccountType::Doctor, AccountType::Doctor, AccountType::Patient].iter().enumerate()
    {
        db.register(&RegisterData {
            name: format!("account {}", i + 1),
            email: format!("account{}@example.com", i + 1),
            password: "pw-pw-pw-pw".to_string(),
            account_type: *role,
        })
        .unwrap();
    }
    let guard = AccountGuard::<PATIENT>::try_new(claims(3, AccountType::Patient)).unwrap();
    for (doctor, hours) in [(1, hours_d1), (2, hours_d2)] {
        for h in 0..hours {
            let text = format!("2024-06-01T{:02}:00:00+00:00", 8 + h);
            let start = parse_timestamp(&text).unwrap();
            book_doctor(&mut db, doctor, &BookInput { start_date: start, duration: 60 }, &guard)
                .unwrap();
        }
    }
    db
}

#[test]
fn date_parsing_is_exact() {
    assert_eq!(parse_date("2024-06-01"), Ok(Date { year: 2024, month: 6, day: 1 }));
    assert_eq!(parse_date("1999-12-31"), Ok(Date { year: 1999, month: 12, day: 31 }));
    assert_eq!(parse_date("2024-02-29"), Ok(Date { year: 2024, month: 2, day: 29 }));
    assert_eq!(parse_date("2023-02-29"), Err(Error::InvalidDate));
    assert_eq!(parse_date("2024-13-01"), Err(Error::InvalidDate));
    assert_eq!(parse_date("2024-02-30"), Err(Error::InvalidDate));
    assert_eq!(parse_date("yesterday"), Err(Error::InvalidDate));
}

#[test]
fn doctors_lists_doctor_ids_in_order() {
    let db = store_with_bookings(0, 0);
    let admin = AccountGuard::<ADMIN>::try_new(claims(9, AccountType::Admin)).unwrap();
    assert_eq!(doctors(&db, &admin), vec![1, 2]);
}

#[test]
fn doctor_info_joins_account_and_profile() {
    let db = store_with_bookings(0, 0);
    let info = doctor_info(&db, 2).unwrap();
    assert_eq!(info.name, "account 2");
    assert_eq!(info.specialty, "");
    assert_eq!(info.details, "");
    // A patient account or an unknown id is no doctor.
    assert_eq!(doctor_info(&db, 3).map(|i| i.name), Err(Error::NotFound));
    assert_eq!(doctor_info(&db, 42).map(|i| i.name), Err(Error::NotFound));
}

#[test]
fn stats_count_non_cancelled_appointments_and_minutes() {
    let mut db = store_with_bookings(3, 5);
    let day = parse_date("2024-06-01").unwrap();
    let stats = db.doctors_stats(day);
    assert_eq!(stats.len(), 2);
    assert_eq!((stats[0].doctor_id, stats[0].appointments_count, stats[0].booked_mins), (1, 3, 180));
    assert_eq!((stats[1].doctor_id, stats[1].appointments_count, stats[1].booked_mins), (2, 5, 300));

    // Cancelling removes an appointment from the day's statistics.
    db.set_appointment_status(1, clinic_scheduler::model::AppointmentStatus::Cancelled).unwrap();
    let stats = db.doctors_stats(day);
    assert_eq!((stats[0].appointments_count, stats[0].booked_mins), (2, 120));
    // Done still counts.
    db.set_appointment_status(2, clinic_scheduler::model::AppointmentStatus::Done).unwrap();
    let stats = db.doctors_stats(day);
    assert_eq!((stats[0].appointments_count, stats[0].booked_mins), (2, 120));

    // An empty day has empty statistics.
    let other = parse_date("2024-06-02").unwrap();
    let stats = db.doctors_stats(other);
    assert_eq!((stats[0].appointments_count, stats[0].booked_mins), (0, 0));
    assert_eq!((stats[1].appointments_count, stats[1].booked_mins), (0, 0));
}

#[test]
fn availability_is_strictly_under_both_ceilings() {
    // Doctor 1 reaches exactly 480 minutes (8 hours): not available,
    // though the eighth booking itself was admitted.
    let db = store_with_bookings(8, 2);
    let any = AccountGuard::<ALL>::try_new(claims(3, AccountType::Patient)).unwrap();
    let date = DateInput { date: "2024-06-01".to_string() };
    let avail = available_doctors(&db, &date, &any).unwrap();
    assert_eq!(avail.len(), 1);
    assert_eq!(avail[0].doctor_id, 2);

    // On a free day both doctors are available.
    let other = DateInput { date: "2024-07-01".to_string() };
    assert_eq!(available_doctors(&db, &other, &any).unwrap().len(), 2);

    let bad = DateInput { date: "06/01/2024".to_string() };
    assert_eq!(available_doctors(&db, &bad, &any), Err(Error::InvalidDate));
}

#[test]
fn count_ceiling_also_removes_availability() {
    // Twelve quarter-hour bookings: only 180 minutes, but the count is full.
    let mut db = DB::default();
    for (i, role) in [AccountType::Doctor, AccountType::Patient].iter().enumerate() {
        db.register(&RegisterData {
            name: format!("account {}", i + 1),
            email: format!("account{}@example.com", i + 1),
            password: "pw-pw-pw-pw".to_string(),
            account_type: *role,
        })
        .unwrap();
    }
    let guard = AccountGuard::<PATIENT>::try_new(claims(2, AccountType::Patient)).unwrap();
    for n in 0..12 {
        let text = format!("2024-06-01T{:02}:{:02}:00+00:00", 9 + n / 4, 15 * (n % 4));
        let start = parse_timestamp(&text).unwrap();
        book_doctor(&mut db, 1, &BookInput { start_date: start, duration: 15 }, &guard).unwrap();
    }
    let any = AccountGuard::<ALL>::try_new(claims(2, AccountType::Patient)).unwrap();
    let date = DateInput { date: "2024-06-01".to_string() };
    assert!(available_doctors(&db, &date, &any).unwrap().is_empty());
}

#[test]
fn top_report_keeps_the_tied_maximum() {
    let db = store_with_bookings(5, 5);
    let admin = AccountGuard::<ADMIN>::try_new(claims(9, AccountType::Admin)).unwrap();
    let date = DateInput { date: "2024-06-01".to_string() };
    let top = stats_top_appointments(&db, &date, &admin).unwrap();
    assert_eq!(top.len(), 2);

    let db = store_with_bookings(3, 5);
    let top = stats_top_appointments(&db, &date, &admin).unwrap();
    assert_eq!(top.len(), 1);
    assert_eq!(top[0].doctor_id, 2);
    assert_eq!(top[0].appointments_count, 5);

    // With no doctors registered the report is empty.
    let empty = DB::default();
    assert!(stats_top_appointments(&empty, &date, &admin).unwrap().is_empty());
}

#[test]
fn over_hours_report_includes_the_threshold_itself() {
    // Doctor 1: 6 hours exactly (360 minutes); doctor 2: 5 hours.
    let db = store_with_bookings(6, 5);
    let admin = AccountGuard::<ADMIN>::try_new(claims(9, AccountType::Admin)).unwrap();
    let date = DateInput { date: "2024-06-01".to_string() };
    let over = stats_greaterthan_hours(&db, &date, &admin).unwrap();
    assert_eq!(over.len(), 1);
    assert_eq!(over[0].doctor_id, 1);
    assert_eq!(over[0].booked_mins, 360);
}

//! The protected operations, one per route of the service. Each takes the
//! store handle, the caller's guard for the capability the route demands,
//! and plain inputs; ownership rules and redaction are applied here.

use vstd::prelude::*;

use crate::auth::{
    can_cancel_appointment, can_view_appointment, can_view_history, spec_can_cancel_appointment,
    spec_can_view_appointment, spec_can_view_history, AccountGuard, ADMIN, ALL, DOCTOR_ADMIN,
    PATIENT,
};
use crate::credential::password_verifies;
use crate::dates::{date_of_str, parse_date};
use crate::model::{
    Appointment, AppointmentRequest, AppointmentStatus, AccountType, Claims, Date, DoctorInfo,
    Error, LoginData, RegisterData, Timestamp,
};
use crate::schedule::{
    admissible, available_stats, doctor_day_appts, lemma_available_stats_take_succ,
    lemma_max_count_take_succ, lemma_over_hours_stats_take_succ, lemma_stats_with_count_take_succ,
    max_count, over_hours_stats, patient_appts, spec_doctor_stats, stats_with_count,
    DoctorAppointmentStats, MAX_DAILY_APPOINTMENTS, MAX_DAILY_MINUTES, OVER_HOURS_MINUTES,
};
use crate::session::{claims_of_token, token_of};
use crate::store::{account_with_email, doctor_ids, has_email, has_profile, profile_for, role_of,
    DB};

verus! {

/// A `YYYY-MM-DD` query date as it arrives from the caller.
#[derive(Debug, Clone)]
pub struct DateInput {
    pub date: String,
}

/// A booking request body: the start time and the length in minutes.
#[derive(Clone, Copy, Debug)]
pub struct BookInput {
    pub start_date: Timestamp,
    pub duration: i32,
}

/// A booked slot as shown to a caller: the patient is absent when the
/// caller's role does not admit seeing it.
#[derive(Clone, Copy, Debug, PartialEq, Eq)]
pub struct BookedTimeslotsView {
    pub doctor_id: i32,
    pub patient_id: Option<i32>,
    pub start_date: Timestamp,
    pub duration: i32,
}

/// Registers an account.
pub fn register(db: &mut DB, data: &RegisterData) -> (r: Result<(), Error>)
    requires
        old(db).wf(),
        old(db).accounts@.len() + 1 <= i32::MAX,
    ensures
        final(db).wf(),
        final(db).appointments@ == old(db).appointments@,
        r == Err::<(), Error>(Error::DuplicateEmail) <==> has_email(
            old(db).accounts@,
            data.email@,
        ),
        r matches Err(_) ==> final(db).accounts@ == old(db).accounts@ && final(db).profiles@
            == old(db).profiles@,
        !has_email(old(db).accounts@, data.email@) && data.password@.len() <= 0x3FFF_FFFF ==> r
            is Ok,
        r is Ok ==> ({
            let accs = final(db).accounts@;
            &&& accs.len() == old(db).accounts@.len() + 1
            &&& forall|i: int|
                0 <= i < old(db).accounts@.len() ==> accs[i] == old(db).accounts@[i]
            &&& accs.last().id == old(db).accounts@.len() + 1
            &&& accs.last().name@ == data.name@
            &&& accs.last().email@ == data.email@
            &&& accs.last().account_type == data.account_type
            &&& password_verifies(accs.last().passhash@, data.password@) == Some(true)
            &&& has_email(accs, data.email@)
            &&& (data.account_type == AccountType::Doctor ==> ({
                let profs = final(db).profiles@;
                &&& profs.len() == old(db).profiles@.len() + 1
                &&& forall|j: int|
                    0 <= j < old(db).profiles@.len() ==> profs[j] == old(db).profiles@[j]
                &&& profs.last().account_id == accs.last().id
            }))
            &&& (data.account_type != AccountType::Doctor ==> final(db).profiles@ == old(
                db,
            ).profiles@)
        }),
{
    db.register(data)
}

/// Checks credentials and returns a bearer token: success exactly when
/// the email is known and the password verifies against its stored hash.
pub fn login(db: &DB, data: &LoginData) -> (r: Result<String, Error>)
    requires
        db.wf(),
    ensures
        ({
            let known = has_email(db.accounts@, data.email@);
            let acct = account_with_email(db.accounts@, data.email@);
            let ver = password_verifies(acct.passhash@, data.password@);
            &&& (r is Ok <==> known && ver == Some(true))
            &&& (r matches Ok(t) ==> exists|iat: u64|
                t@ == #[trigger] token_of(acct.id, acct.account_type.spec_code(), iat)
                    && claims_of_token(t@) == Some(
                    (Claims { sub: acct.id, account_type: acct.account_type, iat }),
                ))
            &&& (r == Err::<String, Error>(Error::InvalidCredentials) <==> (!known || ver
                == Some(false)))
            &&& (r == Err::<String, Error>(Error::HashingError) <==> (known && ver is None))
        }),
{
    db.login(data)
}

/// Lists the ids of every doctor. Admin only.
pub fn doctors(db: &DB, auth: &AccountGuard<ADMIN>) -> (r: Vec<i32>)
    requires
        auth.wf(),
    ensures
        r@ == doctor_ids(db.accounts@),
{
    db.doctors()
}

/// A doctor's public profile: the account's name joined with the
/// specialty and details of the doctor's profile row.
pub fn doctor_info(db: &DB, doctor_id: i32) -> (r: Result<DoctorInfo, Error>)
    requires
        db.wf(),
    ensures
        r is Ok <==> role_of(db.accounts@, doctor_id) == Some(AccountType::Doctor),
        r matches Ok(info) ==> has_profile(db.profiles@, doctor_id) && info.name@
            == db.accounts@[doctor_id - 1].name@ && info.specialty@ == profile_for(
            db.profiles@,
            doctor_id,
        ).specialty@ && info.details@ == profile_for(db.profiles@, doctor_id).details@,
        r matches Err(e) ==> e == Error::NotFound,
{
    db.get_doctor_info(doctor_id)
}

/// The booked slots of one doctor on one day, every status included. Any
/// authenticated role may ask, but the patient identity is redacted
/// unless the caller is a doctor or an administrator: a patient caller
/// never sees a `patient_id`, not even on their own slot.
pub fn doctor_booked_slots(
    db: &DB,
    doctor_id: i32,
    input: &DateInput,
    auth: &AccountGuard<ALL>,
) -> (r: Result<Vec<BookedTimeslotsView>, Error>)
    requires
        db.wf(),
        auth.wf(),
    ensures
        r is Ok <==> date_of_str(input.date@) is Some,
        r matches Err(e) ==> e == Error::InvalidDate,
        r matches Ok(v) ==> (date_of_str(input.date@) matches Some(p) && {
            let day = (Date { year: p.0, month: p.1, day: p.2 });
            let appts = doctor_day_appts(db.appointments@, doctor_id, day);
            &&& v@.len() == appts.len()
            &&& forall|k: int|
                0 <= k < v@.len() ==> {
                    &&& (#[trigger] v@[k]).doctor_id == appts[k].doctor_id
                    &&& v@[k].start_date == appts[k].start_date
                    &&& v@[k].duration == appts[k].duration
                    &&& v@[k].patient_id == (if auth.claims().account_type
                        == AccountType::Patient {
                        None
                    } else {
                        Some(appts[k].patient_id)
                    })
                }
        }),
        auth.claims().account_type == AccountType::Patient ==> (r matches Ok(v)
            ==> forall|k: int| 0 <= k < v@.len() ==> (#[trigger] v@[k]).patient_id is None),
{
    let day = match parse_date(input.date.as_str()) {
        Ok(d) => d,
        Err(e) => {
            return Err(e);
        },
    };
    let appts = db.get_doctor_appointments(doctor_id, day);
    let redact = matches!(auth.claims_ref().account_type, AccountType::Patient);
    let mut out: Vec<BookedTimeslotsView> = Vec::new();
    let n = appts.len();
    for i in 0..n
        invariant
            n == appts@.len(),
            redact == (auth.claims().account_type == AccountType::Patient),
            out@.len() == i,
            forall|k: int|
                0 <= k < i ==> {
                    &&& (#[trigger] out@[k]).doctor_id == appts@[k].doctor_id
                    &&& out@[k].start_date == appts@[k].start_date
                    &&& out@[k].duration == appts@[k].duration
                    &&& out@[k].patient_id == (if redact {
                        None
                    } else {
                        Some(appts@[k].patient_id)
                    })
                },
    {
        let a = appts[i];
        out.push(
            BookedTimeslotsView {
                doctor_id: a.doctor_id,
                patient_id: if redact {
                    None
                } else {
                    Some(a.patient_id)
                },
                start_date: a.start_date,
                duration: a.duration,
            },
        );
    }
    Ok(out)
}

/// Books a slot with a doctor for the calling patient: admission is
/// decided and the row inserted in one exclusive step against the store.
pub fn book_doctor(
    db: &mut DB,
    doctor_id: i32,
    input: &BookInput,
    auth: &AccountGuard<PATIENT>,
) -> (r: Result<i32, Error>)
    requires
        old(db).wf(),
        auth.wf(),
        old(db).appointments@.len() + 1 <= i32::MAX,
    ensures
        final(db).wf(),
        final(db).accounts@ == old(db).accounts@,
        final(db).profiles@ == old(db).profiles@,
        r matches Err(_) ==> final(db).appointments@ == old(db).appointments@,
        ({
            let adm = admissible(
                old(db).appointments@,
                doctor_id,
                input.start_date.date,
                input.duration,
            );
            let roles_ok = role_of(old(db).accounts@, doctor_id) == Some(AccountType::Doctor)
                && role_of(old(db).accounts@, auth.claims().sub) == Some(AccountType::Patient);
            &&& (r == Err::<i32, Error>(Error::SlotUnavailable) <==> !adm)
            &&& (r == Err::<i32, Error>(Error::NotFound) <==> adm && !roles_ok)
            &&& (r is Ok <==> adm && roles_ok)
            &&& (r matches Ok(id) ==> id == old(db).appointments@.len() + 1
                && final(db).appointments@ == old(db).appointments@.push(
                Appointment {
                    id,
                    doctor_id,
                    patient_id: auth.claims().sub,
                    start_date: input.start_date,
                    duration: input.duration,
                    status: AppointmentStatus::Booked,
                },
            ))
        }),
{
    let valid_request = db.is_valid_appointment_request(
        doctor_id,
        &input.start_date,
        input.duration,
    );
    if !valid_request {
        return Err(Error::SlotUnavailable);
    }
    db.book_appointment(
        AppointmentRequest {
            doctor_id,
            patient_id: auth.claims_ref().sub,
            start_date: input.start_date,
            duration: input.duration,
        },
    )
}

/// Cancels an appointment: administrators may cancel any, a doctor only
/// their own; an appointment already cancelled or done stays as it is.
pub fn cancel_appointment(
    db: &mut DB,
    appointment_id: i32,
    auth: &AccountGuard<DOCTOR_ADMIN>,
) -> (r: Result<(), Error>)
    requires
        old(db).wf(),
        auth.wf(),
    ensures
        final(db).wf(),
        final(db).accounts@ == old(db).accounts@,
        final(db).profiles@ == old(db).profiles@,
        r matches Err(_) ==> final(db).appointments@ == old(db).appointments@,
        r == Err::<(), Error>(Error::NotFound) <==> !(1 <= appointment_id
            <= old(db).appointments@.len()),
        1 <= appointment_id <= old(db).appointments@.len() ==> ({
            let a = old(db).appointments@[appointment_id - 1];
            &&& (r == Err::<(), Error>(Error::Forbidden) <==> !spec_can_cancel_appointment(
                auth.claims(),
                a,
            ))
            &&& (r == Err::<(), Error>(Error::InvalidTransition) <==> (
            spec_can_cancel_appointment(auth.claims(), a) && a.status.spec_is_terminal()))
            &&& (r is Ok <==> (spec_can_cancel_appointment(auth.claims(), a)
                && !a.status.spec_is_terminal()))
            &&& (r is Ok ==> final(db).appointments@ == old(db).appointments@.update(
                appointment_id - 1,
                Appointment { status: AppointmentStatus::Cancelled, ..a },
            ))
        }),
{
    let appointment = match db.get_appointment(appointment_id) {
        Ok(a) => a,
        Err(e) => {
            return Err(e);
        },
    };
    if !can_cancel_appointment(auth.claims_ref(), &appointment) {
        return Err(Error::Forbidden);
    }
    match db.set_appointment_status(appointment_id, AppointmentStatus::Cancelled) {
        Ok(()) => Ok(()),
        Err(e) => Err(e),
    }
}

/// The doctors with room left in their day: strictly under both daily
/// ceilings. A doctor standing exactly at a ceiling is not listed, though
/// a booking reaching the ceiling exactly is still admitted.
pub fn available_doctors(db: &DB, input: &DateInput, auth: &AccountGuard<ALL>) -> (r: Result<
    Vec<DoctorAppointmentStats>,
    Error,
>)
    requires
        db.wf(),
        auth.wf(),
    ensures
        r is Ok <==> date_of_str(input.date@) is Some,
        r matches Err(e) ==> e == Error::InvalidDate,
        r matches Ok(v) ==> (date_of_str(input.date@) matches Some(p) && v@ == available_stats(
            spec_doctor_stats(
                doctor_ids(db.accounts@),
                db.appointments@,
                Date { year: p.0, month: p.1, day: p.2 },
            ),
        )),
{
    let day = match parse_date(input.date.as_str()) {
        Ok(d) => d,
        Err(e) => {
            return Err(e);
        },
    };
    let stats = db.doctors_stats(day);
    let mut out: Vec<DoctorAppointmentStats> = Vec::new();
    let n = stats.len();
    for i in 0..n
        invariant
            n == stats@.len(),
            out@ == available_stats(stats@.take(i as int)),
    {
        proof {
            lemma_available_stats_take_succ(stats@, i as int);
        }
        let s = stats[i];
        if s.booked_mins < MAX_DAILY_MINUTES && s.appointments_count < MAX_DAILY_APPOINTMENTS {
            out.push(s);
        }
    }
    proof {
        assert(stats@.take(n as int) =~= stats@);
    }
    Ok(out)
}

/// An appointment's detail, scoped by ownership: administrators see any,
/// a doctor or patient only their own.
pub fn appointment_details(db: &DB, appointment_id: i32, auth: &AccountGuard<ALL>) -> (r: Result<
    Appointment,
    Error,
>)
    requires
        db.wf(),
        auth.wf(),
    ensures
        r == Err::<Appointment, Error>(Error::NotFound) <==> !(1 <= appointment_id
            <= db.appointments@.len()),
        1 <= appointment_id <= db.appointments@.len() ==> ({
            let a = db.appointments@[appointment_id - 1];
            &&& (r == Err::<Appointment, Error>(Error::Forbidden) <==> !spec_can_view_appointment(
                auth.claims(),
                a,
            ))
            &&& (r is Ok <==> spec_can_view_appointment(auth.claims(), a))
            &&& (r matches Ok(got) ==> got == a)
        }),
{
    let appointment = match db.get_appointment(appointment_id) {
        Ok(a) => a,
        Err(e) => {
            return Err(e);
        },
    };
    if !can_view_appointment(auth.claims_ref(), &appointment) {
        return Err(Error::Forbidden);
    }
    Ok(appointment)
}

/// A patient's appointment history: the patient themself or any
/// non-patient role; a patient asking about another patient is refused.
pub fn patient_history(db: &DB, patient_id: i32, auth: &AccountGuard<ALL>) -> (r: Result<
    Vec<Appointment>,
    Error,
>)
    requires
        db.wf(),
        auth.wf(),
    ensures
        r is Ok <==> spec_can_view_history(auth.claims(), patient_id),
        r matches Err(e) ==> e == Error::Forbidden,
        r matches Ok(v) ==> v@ == patient_appts(db.appointments@, patient_id),
{
    if !can_view_history(auth.claims_ref(), patient_id) {
        return Err(Error::Forbidden);
    }
    Ok(db.get_patient_appointments_history(patient_id))
}

/// The doctors tied for the most appointments that day. Admin only; with
/// no doctors registered the report is empty.
pub fn stats_top_appointments(db: &DB, input: &DateInput, auth: &AccountGuard<ADMIN>) -> (r:
    Result<Vec<DoctorAppointmentStats>, Error>)
    requires
        db.wf(),
        auth.wf(),
    ensures
        r is Ok <==> date_of_str(input.date@) is Some,
        r matches Err(e) ==> e == Error::InvalidDate,
        r matches Ok(v) ==> (date_of_str(input.date@) matches Some(p) && {
            let all = spec_doctor_stats(
                doctor_ids(db.accounts@),
                db.appointments@,
                Date { year: p.0, month: p.1, day: p.2 },
            );
            v@ == stats_with_count(all, max_count(all))
        }),
{
    let day = match parse_date(input.date.as_str()) {
        Ok(d) => d,
        Err(e) => {
            return Err(e);
        },
    };
    let stats = db.doctors_stats(day);
    let n = stats.len();
    let mut top: i32 = 0;
    for i in 0..n
        invariant
            n == stats@.len(),
            top == max_count(stats@.take(i as int)),
            top >= 0,
    {
        proof {
            lemma_max_count_take_succ(stats@, i as int);
        }
        if stats[i].appointments_count > top {
            top = stats[i].appointments_count;
        }
    }
    proof {
        assert(stats@.take(n as int) =~= stats@);
    }
    let mut out: Vec<DoctorAppointmentStats> = Vec::new();
    for i in 0..n
        invariant
            n == stats@.len(),
            top == max_count(stats@),
            out@ == stats_with_count(stats@.take(i as int), top as int),
    {
        proof {
            lemma_stats_with_count_take_succ(stats@, i as int, top as int);
        }
        let s = stats[i];
        if s.appointments_count == top {
            out.push(s);
        }
    }
    proof {
        assert(stats@.take(n as int) =~= stats@);
    }
    Ok(out)
}

/// The doctors at or over six booked hours that day. Admin only.
pub fn stats_greaterthan_hours(db: &DB, input: &DateInput, auth: &AccountGuard<ADMIN>) -> (r:
    Result<Vec<DoctorAppointmentStats>, Error>)
    requires
        db.wf(),
        auth.wf(),
    ensures
        r is Ok <==> date_of_str(input.date@) is Some,
        r matches Err(e) ==> e == Error::InvalidDate,
        r matches Ok(v) ==> (date_of_str(input.date@) matches Some(p) && v@ == over_hours_stats(
            spec_doctor_stats(
                doctor_ids(db.accounts@),
                db.appointments@,
                Date { year: p.0, month: p.1, day: p.2 },
            ),
        )),
{
    let day = match parse_date(input.date.as_str()) {
        Ok(d) => d,
        Err(e) => {
            return Err(e);
        },
    };
    let stats = db.doctors_stats(day);
    let mut out: Vec<DoctorAppointmentStats> = Vec::new();
    let n = stats.len();
    for i in 0..n
        invariant
            n == stats@.len(),
            out@ == over_hours_stats(stats@.take(i as int)),
    {
        proof {
            lemma_over_hours_stats_take_succ(stats@, i as int);
        }
        let s = stats[i];
        if s.booked_mins >= OVER_HOURS_MINUTES {
            out.push(s);
        }
    }
    proof {
        assert(stats@.take(n as int) =~= stats@);
    }
    Ok(out)
}

} // verus!

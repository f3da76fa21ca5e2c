//! The store: accounts, doctor profiles and the appointment table, with the
//! invariants that every operation preserves — ids are dense and sequential,
//! emails are unique, every appointment references a doctor and a patient,
//! durations are in range, and no doctor's day exceeds the quota.
//!
//! Operations mutate the store through `&mut self` in one step, so a
//! check-then-insert pair (booking admission, the unique-email check) is
//! atomic by construction: racing writers serialize on the exclusive
//! borrow, and the loser fails deterministically.

use vstd::prelude::*;

use crate::credential::{password_hash, password_verifies, verify_password};
use crate::model::{
    Account, Appointment, AppointmentRequest, AppointmentStatus, AccountType, Claims, Date,
    DoctorInfo, DoctorProfile, Error, LoginData, RegisterData, Timestamp,
};
use crate::session::{claims_of_token, issue_token, token_of};
use crate::schedule::{
    admissible, compute_daily_stats, day_count, day_minutes, doctor_day_appts,
    lemma_day_nonneg, lemma_day_push, lemma_day_update, lemma_doctor_day_appts_take_succ,
    lemma_patient_appts_take_succ, patient_appts, spec_doctor_stats, DoctorAppointmentStats,
    MAX_DAILY_APPOINTMENTS, MAX_DAILY_MINUTES, MAX_DURATION, MIN_DURATION,
};

verus! {

/// Whether some account holds `email`.
pub open spec fn has_email(accounts: Seq<Account>, email: Seq<char>) -> bool {
    exists|i: int| 0 <= i < accounts.len() && #[trigger] accounts[i].email@ == email
}

/// The role of the account with id `id`, if it exists. Ids are dense, so
/// the account with id `id` sits at index `id - 1`.
pub open spec fn role_of(accounts: Seq<Account>, id: i32) -> Option<AccountType> {
    if 1 <= id <= accounts.len() {
        Some(accounts[id - 1].account_type)
    } else {
        None
    }
}

/// The account holding `email`; meaningful only when `has_email` holds,
/// and unique because emails are.
pub open spec fn account_with_email(accounts: Seq<Account>, email: Seq<char>) -> Account {
    accounts[choose|i: int| 0 <= i < accounts.len() && #[trigger] accounts[i].email@ == email]
}

/// Whether a doctor profile row exists for account `id`.
pub open spec fn has_profile(profiles: Seq<DoctorProfile>, id: i32) -> bool {
    exists|j: int| 0 <= j < profiles.len() && #[trigger] profiles[j].account_id == id
}

/// The profile row of account `id`; meaningful only when `has_profile`
/// holds, and unique because profile rows are one per account.
pub open spec fn profile_for(profiles: Seq<DoctorProfile>, id: i32) -> DoctorProfile {
    profiles[choose|j: int| 0 <= j < profiles.len() && #[trigger] profiles[j].account_id == id]
}

/// The ids of the Doctor-role accounts, in account order.
pub open spec fn doctor_ids(accounts: Seq<Account>) -> Seq<i32>
    decreases accounts.len(),
{
    if accounts.len() == 0 {
        Seq::empty()
    } else {
        doctor_ids(accounts.drop_last()) + if accounts.last().account_type
            == AccountType::Doctor {
            seq![accounts.last().id]
        } else {
            Seq::empty()
        }
    }
}

pub proof fn lemma_doctor_ids_take_succ(accounts: Seq<Account>, i: int)
    requires
        0 <= i < accounts.len(),
    ensures
        doctor_ids(accounts.take(i + 1)) == if accounts[i].account_type == AccountType::Doctor {
            doctor_ids(accounts.take(i)).push(accounts[i].id)
        } else {
            doctor_ids(accounts.take(i))
        },
{
    assert(accounts.take(i + 1).drop_last() =~= accounts.take(i));
    assert(accounts.take(i + 1).last() == accounts[i]);
    if accounts[i].account_type == AccountType::Doctor {
        assert(doctor_ids(accounts.take(i)) + seq![accounts[i].id] =~= doctor_ids(
            accounts.take(i),
        ).push(accounts[i].id));
    } else {
        assert(doctor_ids(accounts.take(i)) + Seq::empty() =~= doctor_ids(accounts.take(i)));
    }
}

/// Quota safety: in a well-formed store — and every operation both
/// demands and returns one — no doctor's calendar day holds more than
/// `MAX_DAILY_APPOINTMENTS` non-cancelled appointments or
/// `MAX_DAILY_MINUTES` non-cancelled booked minutes, whatever sequence of
/// bookings and cancellations led to the state.
pub proof fn lemma_daily_quota(db: DB, doctor_id: i32, day: Date)
    requires
        db.wf(),
    ensures
        day_count(db.appointments@, doctor_id, day) <= MAX_DAILY_APPOINTMENTS,
        day_minutes(db.appointments@, doctor_id, day) <= MAX_DAILY_MINUTES,
{
}

/// Email uniqueness under racing registrations. Registrations serialize
/// on the store's exclusive borrow; a successful one leaves its email
/// held (`register`'s `Ok` clause), and `register` refuses exactly the
/// emails already held (`DuplicateEmail` clause). This lemma closes the
/// argument across later operations: a held email stays held in every
/// state whose accounts extend the committed ones — no operation removes
/// accounts — so of two registrations with one email, the second to
/// commit is refused with `DuplicateEmail`.
pub proof fn lemma_second_register_refused(mid: DB, later: DB, email: Seq<char>)
    requires
        has_email(mid.accounts@, email),
        mid.accounts@.is_prefix_of(later.accounts@),
    ensures
        has_email(later.accounts@, email),
{
    let i = choose|i: int|
        0 <= i < mid.accounts@.len() && (#[trigger] mid.accounts@[i].email@) == email;
    assert(later.accounts@[i].email@ == email);
}

/// The in-memory relational store.
pub struct DB {
    pub accounts: Vec<Account>,
    pub profiles: Vec<DoctorProfile>,
    pub appointments: Vec<Appointment>,
}

impl DB {
    /// Account rows are well-formed: dense sequential ids, unique emails,
    /// profile rows only for doctors and one per account, and a profile
    /// row for every doctor.
    pub open spec fn accounts_wf(self) -> bool {
        &&& forall|i: int|
            0 <= i < self.accounts@.len() ==> (#[trigger] self.accounts@[i]).id == i + 1
        &&& forall|i: int, j: int|
            0 <= i < j < self.accounts@.len() ==> (#[trigger] self.accounts@[i].email@)
                != (#[trigger] self.accounts@[j].email@)
        &&& forall|j: int|
            0 <= j < self.profiles@.len() ==> role_of(
                self.accounts@,
                (#[trigger] self.profiles@[j]).account_id,
            ) == Some(AccountType::Doctor)
        &&& forall|j: int, k: int|
            0 <= j < k < self.profiles@.len() ==> (#[trigger] self.profiles@[j].account_id)
                != (#[trigger] self.profiles@[k].account_id)
        &&& forall|i: int|
            0 <= i < self.accounts@.len() && (#[trigger] self.accounts@[i]).account_type
                == AccountType::Doctor ==> has_profile(self.profiles@, self.accounts@[i].id)
    }

    /// Appointment rows are well-formed: dense sequential ids, references
    /// to a doctor and a patient, and durations in range.
    pub open spec fn appointments_wf(self) -> bool {
        &&& forall|i: int|
            0 <= i < self.appointments@.len() ==> (#[trigger] self.appointments@[i]).id == i + 1
        &&& forall|i: int|
            0 <= i < self.appointments@.len() ==> role_of(
                self.accounts@,
                (#[trigger] self.appointments@[i]).doctor_id,
            ) == Some(AccountType::Doctor)
        &&& forall|i: int|
            0 <= i < self.appointments@.len() ==> role_of(
                self.accounts@,
                (#[trigger] self.appointments@[i]).patient_id,
            ) == Some(AccountType::Patient)
        &&& forall|i: int|
            0 <= i < self.appointments@.len() ==> MIN_DURATION <= (
            #[trigger] self.appointments@[i]).duration <= MAX_DURATION
    }

    /// No doctor's day holds more than the quota of non-cancelled
    /// appointments or minutes.
    pub open spec fn quota_ok(self) -> bool {
        forall|d: i32, day: Date|
            #![trigger day_count(self.appointments@, d, day)]
            #![trigger day_minutes(self.appointments@, d, day)]
            day_count(self.appointments@, d, day) <= MAX_DAILY_APPOINTMENTS && day_minutes(
                self.appointments@,
                d,
                day,
            ) <= MAX_DAILY_MINUTES
    }

    /// The store's invariant: established empty, preserved by every
    /// operation.
    pub open spec fn wf(self) -> bool {
        self.accounts_wf() && self.appointments_wf() && self.quota_ok()
    }

    /// An empty store.
    pub fn default() -> (r: Self)
        ensures
            r.wf(),
            r.accounts@ == Seq::<Account>::empty(),
            r.profiles@ == Seq::<DoctorProfile>::empty(),
            r.appointments@ == Seq::<Appointment>::empty(),
    {
        DB { accounts: Vec::new(), profiles: Vec::new(), appointments: Vec::new() }
    }

    /// The role of the account with id `id`, if such an account exists.
    pub fn account_role(&self, id: i32) -> (r: Option<AccountType>)
        ensures
            r == role_of(self.accounts@, id),
    {
        if id < 1 {
            return None;
        }
        let idx = (id - 1) as usize;
        if idx >= self.accounts.len() {
            return None;
        }
        Some(self.accounts[idx].account_type)
    }

    /// Looks an appointment up by id.
    pub fn get_appointment(&self, appointment_id: i32) -> (r: Result<Appointment, Error>)
        ensures
            r matches Ok(a) ==> 1 <= appointment_id <= self.appointments@.len() && a
                == self.appointments@[appointment_id - 1],
            r matches Err(e) ==> e == Error::NotFound && !(1 <= appointment_id
                <= self.appointments@.len()),
    {
        if appointment_id < 1 {
            return Err(Error::NotFound);
        }
        let idx = (appointment_id - 1) as usize;
        if idx >= self.appointments.len() {
            return Err(Error::NotFound);
        }
        Ok(self.appointments[idx])
    }

    /// Applies a lifecycle transition. The only admitted transitions are
    /// `Booked` to `Cancelled` and `Booked` to `Done`: an appointment in a
    /// terminal status never changes again, and nothing returns to
    /// `Booked`.
    pub fn set_appointment_status(&mut self, appointment_id: i32, status: AppointmentStatus) -> (r:
        Result<(), Error>)
        requires
            old(self).wf(),
        ensures
            final(self).wf(),
            final(self).accounts@ == old(self).accounts@,
            final(self).profiles@ == old(self).profiles@,
            r matches Err(_) ==> final(self).appointments@ == old(self).appointments@,
            r == Err::<(), Error>(Error::NotFound) <==> !(1 <= appointment_id <= old(
                self,
            ).appointments@.len()),
            1 <= appointment_id <= old(self).appointments@.len() ==> {
                let a = old(self).appointments@[appointment_id - 1];
                &&& (a.status.spec_is_terminal() || status == AppointmentStatus::Booked) <==> r
                    == Err::<(), Error>(Error::InvalidTransition)
                &&& r is Ok <==> (a.status == AppointmentStatus::Booked && status
                    != AppointmentStatus::Booked)
                &&& r is Ok ==> final(self).appointments@ == old(self).appointments@.update(
                    appointment_id - 1,
                    Appointment { status, ..a },
                )
            },
    {
        if appointment_id < 1 {
            return Err(Error::NotFound);
        }
        let idx = (appointment_id - 1) as usize;
        if idx >= self.appointments.len() {
            return Err(Error::NotFound);
        }
        let a = self.appointments[idx];
        if a.status.is_terminal() || matches!(status, AppointmentStatus::Booked) {
            return Err(Error::InvalidTransition);
        }
        let updated = Appointment { status, ..a };
        self.appointments.set(idx, updated);
        proof {
            let olds = old(self).appointments@;
            let news = self.appointments@;
            assert forall|d: i32, day: Date|
                #![trigger day_count(news, d, day)]
                #![trigger day_minutes(news, d, day)]
                day_count(news, d, day) <= MAX_DAILY_APPOINTMENTS && day_minutes(news, d, day)
                    <= MAX_DAILY_MINUTES by {
                lemma_day_update(olds, idx as int, updated, d, day);
            }
        }
        Ok(())
    }

    /// The booking admission rule: duration within bounds, and the
    /// doctor's day would stay within the quota after this appointment.
    /// A duration under `MIN_DURATION` or over `MAX_DURATION` is rejected
    /// whatever the quota state.
    pub fn is_valid_appointment_request(
        &self,
        doctor_id: i32,
        start_date: &Timestamp,
        duration: i32,
    ) -> (r: bool)
        requires
            self.wf(),
        ensures
            r == admissible(self.appointments@, doctor_id, start_date.date, duration),
            duration < MIN_DURATION || duration > MAX_DURATION ==> !r,
    {
        if duration < MIN_DURATION || duration > MAX_DURATION {
            return false;
        }
        let stats = compute_daily_stats(&self.appointments, doctor_id, start_date.date);
        proof {
            lemma_day_nonneg(self.appointments@, doctor_id, start_date.date);
        }
        stats.appointments_count + 1 <= MAX_DAILY_APPOINTMENTS && stats.booked_mins + duration
            <= MAX_DAILY_MINUTES
    }

    /// Books an appointment: the admission rule is re-checked and the row
    /// inserted in the same exclusive step, so the quota invariant cannot
    /// be raced past.
    pub fn book_appointment(&mut self, req: AppointmentRequest) -> (r: Result<i32, Error>)
        requires
            old(self).wf(),
            old(self).appointments@.len() + 1 <= i32::MAX,
        ensures
            final(self).wf(),
            final(self).accounts@ == old(self).accounts@,
            final(self).profiles@ == old(self).profiles@,
            r matches Err(_) ==> final(self).appointments@ == old(self).appointments@,
            ({
                let roles_ok = role_of(old(self).accounts@, req.doctor_id) == Some(
                    AccountType::Doctor,
                ) && role_of(old(self).accounts@, req.patient_id) == Some(AccountType::Patient);
                let ok = roles_ok && admissible(
                    old(self).appointments@,
                    req.doctor_id,
                    req.start_date.date,
                    req.duration,
                );
                &&& r == Err::<i32, Error>(Error::NotFound) <==> !roles_ok
                &&& r == Err::<i32, Error>(Error::SlotUnavailable) <==> (roles_ok && !admissible(
                    old(self).appointments@,
                    req.doctor_id,
                    req.start_date.date,
                    req.duration,
                ))
                &&& r is Ok <==> ok
                &&& r matches Ok(id) ==> id == old(self).appointments@.len() + 1
                    && final(self).appointments@ == old(self).appointments@.push(
                    Appointment {
                        id,
                        doctor_id: req.doctor_id,
                        patient_id: req.patient_id,
                        start_date: req.start_date,
                        duration: req.duration,
                        status: AppointmentStatus::Booked,
                    },
                )
            }),
    {
        match self.account_role(req.doctor_id) {
            Some(AccountType::Doctor) => {},
            _ => {
                return Err(Error::NotFound);
            },
        }
        match self.account_role(req.patient_id) {
            Some(AccountType::Patient) => {},
            _ => {
                return Err(Error::NotFound);
            },
        }
        if !self.is_valid_appointment_request(req.doctor_id, &req.start_date, req.duration) {
            return Err(Error::SlotUnavailable);
        }
        let id = (self.appointments.len() + 1) as i32;
        let appt = Appointment {
            id,
            doctor_id: req.doctor_id,
            patient_id: req.patient_id,
            start_date: req.start_date,
            duration: req.duration,
            status: AppointmentStatus::Booked,
        };
        self.appointments.push(appt);
        proof {
            let olds = old(self).appointments@;
            let news = self.appointments@;
            assert forall|d: i32, day: Date|
                #![trigger day_count(news, d, day)]
                #![trigger day_minutes(news, d, day)]
                day_count(news, d, day) <= MAX_DAILY_APPOINTMENTS && day_minutes(news, d, day)
                    <= MAX_DAILY_MINUTES by {
                lemma_day_push(olds, appt, d, day);
                lemma_day_nonneg(olds, d, day);
            }
        }
        Ok(id)
    }

    /// The ids of all Doctor-role accounts, in account order.
    pub fn doctors(&self) -> (r: Vec<i32>)
        ensures
            r@ == doctor_ids(self.accounts@),
    {
        let mut out: Vec<i32> = Vec::new();
        let n = self.accounts.len();
        for i in 0..n
            invariant
                n == self.accounts@.len(),
                out@ == doctor_ids(self.accounts@.take(i as int)),
        {
            proof {
                lemma_doctor_ids_take_succ(self.accounts@, i as int);
            }
            if matches!(self.accounts[i].account_type, AccountType::Doctor) {
                out.push(self.accounts[i].id);
            }
        }
        proof {
            assert(self.accounts@.take(n as int) =~= self.accounts@);
        }
        out
    }

    /// A doctor's public profile: the account's name joined with the
    /// profile row. Succeeds exactly when the account exists and is a
    /// doctor; under the invariant every doctor has a profile row.
    pub fn get_doctor_info(&self, doctor_id: i32) -> (r: Result<DoctorInfo, Error>)
        requires
            self.wf(),
        ensures
            r is Ok <==> role_of(self.accounts@, doctor_id) == Some(AccountType::Doctor),
            r matches Ok(info) ==> has_profile(self.profiles@, doctor_id) && info.name@
                == self.accounts@[doctor_id - 1].name@ && info.specialty@ == profile_for(
                self.profiles@,
                doctor_id,
            ).specialty@ && info.details@ == profile_for(self.profiles@, doctor_id).details@,
            r matches Err(e) ==> e == Error::NotFound,
    {
        if doctor_id < 1 {
            return Err(Error::NotFound);
        }
        let idx = (doctor_id - 1) as usize;
        if idx >= self.accounts.len() {
            return Err(Error::NotFound);
        }
        let account = &self.accounts[idx];
        if !matches!(account.account_type, AccountType::Doctor) {
            return Err(Error::NotFound);
        }
        assert(has_profile(self.profiles@, doctor_id));
        let m = self.profiles.len();
        for j in 0..m
            invariant
                m == self.profiles@.len(),
                self.wf(),
                1 <= doctor_id <= self.accounts@.len(),
                self.accounts@[doctor_id - 1].account_type == AccountType::Doctor,
                idx == doctor_id - 1,
                forall|k: int|
                    0 <= k < j ==> (#[trigger] self.profiles@[k]).account_id != doctor_id,
        {
            if self.profiles[j].account_id == doctor_id {
                proof {
                    let c = choose|k: int|
                        0 <= k < self.profiles@.len() && #[trigger] self.profiles@[k].account_id
                            == doctor_id;
                    assert(self.profiles@[c].account_id == doctor_id);
                    assert(c == j);
                }
                return Ok(
                    DoctorInfo {
                        name: self.accounts[idx].name.clone(),
                        specialty: self.profiles[j].specialty.clone(),
                        details: self.profiles[j].details.clone(),
                    },
                );
            }
        }
        proof {
            let c = choose|k: int|
                0 <= k < self.profiles@.len() && #[trigger] self.profiles@[k].account_id
                    == doctor_id;
            assert(self.profiles@[c].account_id == doctor_id);
            assert(false);
        }
        Err(Error::NotFound)
    }

    /// All appointments of one doctor starting on one day, cancelled ones
    /// included, in table order.
    pub fn get_doctor_appointments(&self, doctor_id: i32, day: Date) -> (r: Vec<Appointment>)
        ensures
            r@ == doctor_day_appts(self.appointments@, doctor_id, day),
    {
        let mut out: Vec<Appointment> = Vec::new();
        let n = self.appointments.len();
        for i in 0..n
            invariant
                n == self.appointments@.len(),
                out@ == doctor_day_appts(self.appointments@.take(i as int), doctor_id, day),
        {
            proof {
                lemma_doctor_day_appts_take_succ(self.appointments@, i as int, doctor_id, day);
            }
            let a = self.appointments[i];
            if a.doctor_id == doctor_id && a.start_date.date == day {
                out.push(a);
            }
        }
        proof {
            assert(self.appointments@.take(n as int) =~= self.appointments@);
        }
        out
    }

    /// A patient's full appointment history: every status, every day, in
    /// table order.
    pub fn get_patient_appointments_history(&self, patient_id: i32) -> (r: Vec<Appointment>)
        ensures
            r@ == patient_appts(self.appointments@, patient_id),
    {
        let mut out: Vec<Appointment> = Vec::new();
        let n = self.appointments.len();
        for i in 0..n
            invariant
                n == self.appointments@.len(),
                out@ == patient_appts(self.appointments@.take(i as int), patient_id),
        {
            proof {
                lemma_patient_appts_take_succ(self.appointments@, i as int, patient_id);
            }
            let a = self.appointments[i];
            if a.patient_id == patient_id {
                out.push(a);
            }
        }
        proof {
            assert(self.appointments@.take(n as int) =~= self.appointments@);
        }
        out
    }

    /// The daily statistics of every doctor, in account order.
    pub fn doctors_stats(&self, day: Date) -> (r: Vec<DoctorAppointmentStats>)
        requires
            self.wf(),
        ensures
            r@ == spec_doctor_stats(doctor_ids(self.accounts@), self.appointments@, day),
    {
        let mut out: Vec<DoctorAppointmentStats> = Vec::new();
        let n = self.accounts.len();
        for i in 0..n
            invariant
                n == self.accounts@.len(),
                self.wf(),
                out@ == spec_doctor_stats(
                    doctor_ids(self.accounts@.take(i as int)),
                    self.appointments@,
                    day,
                ),
        {
            proof {
                lemma_doctor_ids_take_succ(self.accounts@, i as int);
            }
            if matches!(self.accounts[i].account_type, AccountType::Doctor) {
                let id = self.accounts[i].id;
                let stats = compute_daily_stats(&self.appointments, id, day);
                proof {
                    lemma_day_nonneg(self.appointments@, id, day);
                }
                out.push(stats);
                proof {
                    assert(out@ =~= spec_doctor_stats(
                        doctor_ids(self.accounts@.take(i + 1)),
                        self.appointments@,
                        day,
                    ));
                }
            }
        }
        proof {
            assert(self.accounts@.take(n as int) =~= self.accounts@);
        }
        out
    }

    /// Registers an account: the unique-email check, the account row and
    /// the role-profile row are one exclusive step, so registration is
    /// atomic and the second of two equal-email registrations fails with
    /// `DuplicateEmail`.
    pub fn register(&mut self, data: &RegisterData) -> (r: Result<(), Error>)
        requires
            old(self).wf(),
            old(self).accounts@.len() + 1 <= i32::MAX,
        ensures
            final(self).wf(),
            final(self).appointments@ == old(self).appointments@,
            r == Err::<(), Error>(Error::DuplicateEmail) <==> has_email(
                old(self).accounts@,
                data.email@,
            ),
            r matches Err(e) ==> (e == Error::DuplicateEmail || e == Error::HashingError)
                && final(self).accounts@ == old(self).accounts@ && final(self).profiles@ == old(
                self,
            ).profiles@,
            !has_email(old(self).accounts@, data.email@) && data.password@.len() <= 0x3FFF_FFFF
                ==> r is Ok,
            r is Ok ==> ({
                let accs = final(self).accounts@;
                &&& accs.len() == old(self).accounts@.len() + 1
                &&& forall|i: int|
                    0 <= i < old(self).accounts@.len() ==> accs[i] == old(self).accounts@[i]
                &&& accs.last().id == old(self).accounts@.len() + 1
                &&& accs.last().name@ == data.name@
                &&& accs.last().email@ == data.email@
                &&& accs.last().account_type == data.account_type
                &&& password_verifies(accs.last().passhash@, data.password@) == Some(true)
                &&& has_email(accs, data.email@)
                &&& (data.account_type == AccountType::Doctor ==> ({
                    let profs = final(self).profiles@;
                    &&& profs.len() == old(self).profiles@.len() + 1
                    &&& forall|j: int|
                        0 <= j < old(self).profiles@.len() ==> profs[j] == old(self).profiles@[j]
                    &&& profs.last().account_id == accs.last().id
                    &&& profs.last().specialty@ == Seq::<char>::empty()
                    &&& profs.last().details@ == Seq::<char>::empty()
                }))
                &&& (data.account_type != AccountType::Doctor ==> final(self).profiles@ == old(
                    self,
                ).profiles@)
            }),
    {
        let n = self.accounts.len();
        for i in 0..n
            invariant
                n == self.accounts@.len(),
                self.accounts@ == old(self).accounts@,
                self.profiles@ == old(self).profiles@,
                self.appointments@ == old(self).appointments@,
                self.wf(),
                forall|k: int| 0 <= k < i ==> (#[trigger] self.accounts@[k].email@) != data.email@,
        {
            if self.accounts[i].email == data.email {
                proof {
                    assert(has_email(self.accounts@, data.email@));
                }
                return Err(Error::DuplicateEmail);
            }
        }
        assert(!has_email(self.accounts@, data.email@));
        let hash = match password_hash(data.password.as_str()) {
            Ok(h) => h,
            Err(e) => {
                return Err(e);
            },
        };
        let ghost olda = self.accounts@;
        let ghost oldp = self.profiles@;
        let id = (self.accounts.len() + 1) as i32;
        let account = Account {
            id,
            name: data.name.clone(),
            email: data.email.clone(),
            passhash: hash,
            account_type: data.account_type,
        };
        self.accounts.push(account);
        if matches!(data.account_type, AccountType::Doctor) {
            self.profiles.push(
                DoctorProfile { account_id: id, specialty: String::new(), details: String::new() },
            );
        }
        proof {
            let accs = self.accounts@;
            let profs = self.profiles@;
            assert forall|i: int, j: int| 0 <= i < j < accs.len() implies (
            #[trigger] accs[i].email@) != (#[trigger] accs[j].email@) by {
                if j < olda.len() {
                    assert(accs[i] == olda[i] && accs[j] == olda[j]);
                } else {
                    assert(accs[i] == olda[i]);
                    assert(accs[j].email@ == data.email@);
                }
            }
            assert forall|j: int| 0 <= j < profs.len() implies role_of(
                accs,
                (#[trigger] profs[j]).account_id,
            ) == Some(AccountType::Doctor) by {
                if j < oldp.len() {
                    assert(profs[j] == oldp[j]);
                    assert(role_of(olda, oldp[j].account_id) == Some(AccountType::Doctor));
                    assert(accs[profs[j].account_id - 1] == olda[profs[j].account_id - 1]);
                } else {
                    assert(profs[j].account_id == id);
                    assert(accs[id - 1].account_type == AccountType::Doctor);
                }
            }
            assert forall|j: int, k: int| 0 <= j < k < profs.len() implies (
            #[trigger] profs[j].account_id) != (#[trigger] profs[k].account_id) by {
                if k < oldp.len() {
                    assert(profs[j] == oldp[j] && profs[k] == oldp[k]);
                } else {
                    assert(profs[j] == oldp[j]);
                    assert(role_of(olda, oldp[j].account_id) == Some(AccountType::Doctor));
                    assert(profs[j].account_id <= olda.len());
                    assert(profs[k].account_id == id);
                }
            }
            assert forall|i: int|
                0 <= i < accs.len() && (#[trigger] accs[i]).account_type
                    == AccountType::Doctor implies has_profile(profs, accs[i].id) by {
                if i < olda.len() {
                    assert(accs[i] == olda[i]);
                    assert(has_profile(oldp, olda[i].id));
                    let w = choose|j: int|
                        0 <= j < oldp.len() && (#[trigger] oldp[j]).account_id == olda[i].id;
                    assert(profs[w] == oldp[w]);
                    assert(profs[w].account_id == accs[i].id);
                } else {
                    assert(accs[i].id == id);
                    assert(profs[profs.len() - 1].account_id == id);
                }
            }
            assert forall|i: int|
                0 <= i < self.appointments@.len() implies role_of(
                accs,
                (#[trigger] self.appointments@[i]).doctor_id,
            ) == Some(AccountType::Doctor) && role_of(
                accs,
                self.appointments@[i].patient_id,
            ) == Some(AccountType::Patient) by {
                let d = self.appointments@[i].doctor_id;
                let p = self.appointments@[i].patient_id;
                assert(role_of(olda, d) == Some(AccountType::Doctor));
                assert(role_of(olda, p) == Some(AccountType::Patient));
                assert(accs[d - 1] == olda[d - 1]);
                assert(accs[p - 1] == olda[p - 1]);
            }
            assert(has_email(accs, data.email@)) by {
                assert(accs[accs.len() - 1].email@ == data.email@);
            }
        }
        Ok(())
    }

    /// Checks credentials and mints a session token: the account is found
    /// by email, the password verified against its stored hash, and the
    /// claims signed. An unknown email and a wrong password fail alike.
    pub fn login(&self, data: &LoginData) -> (r: Result<String, Error>)
        requires
            self.wf(),
        ensures
            ({
                let accs = self.accounts@;
                let known = has_email(accs, data.email@);
                let acct = account_with_email(accs, data.email@);
                let ver = password_verifies(acct.passhash@, data.password@);
                &&& (r is Ok <==> known && ver == Some(true))
                &&& (r matches Ok(t) ==> exists|iat: u64|
                    t@ == #[trigger] token_of(acct.id, acct.account_type.spec_code(), iat)
                        && claims_of_token(t@) == Some(
                        (Claims { sub: acct.id, account_type: acct.account_type, iat }),
                    ))
                &&& (r == Err::<String, Error>(Error::InvalidCredentials) <==> (!known || ver
                    == Some(false)))
                &&& (r == Err::<String, Error>(Error::HashingError) <==> (known && ver is None))
            }),
    {
        let n = self.accounts.len();
        for i in 0..n
            invariant
                n == self.accounts@.len(),
                self.wf(),
                forall|k: int| 0 <= k < i ==> (#[trigger] self.accounts@[k].email@) != data.email@,
        {
            if self.accounts[i].email == data.email {
                proof {
                    let accs = self.accounts@;
                    assert(has_email(accs, data.email@));
                    let c = choose|k: int|
                        0 <= k < accs.len() && (#[trigger] accs[k].email@) == data.email@;
                    assert(accs[c].email@ == data.email@);
                    assert(c == i as int);
                    assert(account_with_email(accs, data.email@) == accs[i as int]);
                }
                let matched = match verify_password(
                    self.accounts[i].passhash.as_str(),
                    data.password.as_str(),
                ) {
                    Ok(b) => b,
                    Err(e) => {
                        return Err(e);
                    },
                };
                if !matched {
                    return Err(Error::InvalidCredentials);
                }
                return issue_token(self.accounts[i].id, self.accounts[i].account_type);
            }
        }
        assert(!has_email(self.accounts@, data.email@));
        Err(Error::InvalidCredentials)
    }
}

} // verus!

//! The scheduling engine: per-doctor daily statistics over the appointment
//! table, and the booking admission rule's quota arithmetic.
//!
//! An appointment counts towards a doctor's day when it belongs to that
//! doctor, starts on that calendar date, and is not cancelled.

use vstd::prelude::*;

use crate::model::{Appointment, AppointmentStatus, Date};

verus! {

/// Derived per-doctor statistics for one calendar day.
#[derive(Clone, Copy, Debug, PartialEq, Eq, Structural)]
pub struct DoctorAppointmentStats {
    pub doctor_id: i32,
    pub appointments_count: i32,
    pub booked_mins: i32,
}

/// The daily appointment-count ceiling for one doctor.
pub const MAX_DAILY_APPOINTMENTS: i32 = 12;

/// The daily booked-minutes ceiling for one doctor.
pub const MAX_DAILY_MINUTES: i32 = 480;

/// The shortest admissible appointment, in minutes.
pub const MIN_DURATION: i32 = 15;

/// The longest admissible appointment, in minutes.
pub const MAX_DURATION: i32 = 120;

/// Whether `a` counts towards `doctor_id`'s statistics on `day`:
/// cancelled appointments are excluded.
pub open spec fn counts_for(a: Appointment, doctor_id: i32, day: Date) -> bool {
    a.doctor_id == doctor_id && a.start_date.date == day && a.status != AppointmentStatus::Cancelled
}

/// How many appointments of `s` count towards `doctor_id`'s day.
pub open spec fn day_count(s: Seq<Appointment>, doctor_id: i32, day: Date) -> int
    decreases s.len(),
{
    if s.len() == 0 {
        0
    } else {
        day_count(s.drop_last(), doctor_id, day) + if counts_for(s.last(), doctor_id, day) {
            1int
        } else {
            0int
        }
    }
}

/// How many minutes of `s` count towards `doctor_id`'s day.
pub open spec fn day_minutes(s: Seq<Appointment>, doctor_id: i32, day: Date) -> int
    decreases s.len(),
{
    if s.len() == 0 {
        0
    } else {
        day_minutes(s.drop_last(), doctor_id, day) + if counts_for(s.last(), doctor_id, day) {
            s.last().duration as int
        } else {
            0int
        }
    }
}

/// The booking admission rule: the duration is within bounds and the
/// doctor's day would stay within the quota with this appointment added.
pub open spec fn admissible(
    s: Seq<Appointment>,
    doctor_id: i32,
    day: Date,
    duration: i32,
) -> bool {
    &&& MIN_DURATION <= duration <= MAX_DURATION
    &&& day_count(s, doctor_id, day) + 1 <= MAX_DAILY_APPOINTMENTS
    &&& day_minutes(s, doctor_id, day) + duration <= MAX_DAILY_MINUTES
}

/// Appending one appointment raises the day's statistics by exactly its
/// own contribution.
pub proof fn lemma_day_push(s: Seq<Appointment>, a: Appointment, doctor_id: i32, day: Date)
    ensures
        day_count(s.push(a), doctor_id, day) == day_count(s, doctor_id, day) + if counts_for(
            a,
            doctor_id,
            day,
        ) {
            1int
        } else {
            0int
        },
        day_minutes(s.push(a), doctor_id, day) == day_minutes(s, doctor_id, day) + if counts_for(
            a,
            doctor_id,
            day,
        ) {
            a.duration as int
        } else {
            0int
        },
{
    assert(s.push(a).drop_last() =~= s);
    assert(s.push(a).last() == a);
}

/// The count is never negative, and the minutes are not when no duration is.
pub proof fn lemma_day_nonneg(s: Seq<Appointment>, doctor_id: i32, day: Date)
    ensures
        day_count(s, doctor_id, day) >= 0,
        (forall|k: int| 0 <= k < s.len() ==> s[k].duration >= 0) ==> day_minutes(
            s,
            doctor_id,
            day,
        ) >= 0,
    decreases s.len(),
{
    if s.len() > 0 {
        lemma_day_nonneg(s.drop_last(), doctor_id, day);
        assert(forall|k: int| 0 <= k < s.len() - 1 ==> s.drop_last()[k] == s[k]);
    }
}

/// A prefix of the table contributes no more than the whole table.
pub proof fn lemma_day_take_le(s: Seq<Appointment>, i: int, doctor_id: i32, day: Date)
    requires
        0 <= i <= s.len(),
    ensures
        day_count(s.take(i), doctor_id, day) <= day_count(s, doctor_id, day),
        (forall|k: int| 0 <= k < s.len() ==> s[k].duration >= 0) ==> day_minutes(
            s.take(i),
            doctor_id,
            day,
        ) <= day_minutes(s, doctor_id, day),
    decreases s.len() - i,
{
    if i == s.len() {
        assert(s.take(i) =~= s);
    } else {
        lemma_day_take_le(s, i + 1, doctor_id, day);
        assert(s.take(i + 1).drop_last() =~= s.take(i));
        assert(s.take(i + 1).last() == s[i]);
    }
}

/// Extending a prefix by its next element adds that element's contribution.
pub proof fn lemma_day_take_succ(s: Seq<Appointment>, i: int, doctor_id: i32, day: Date)
    requires
        0 <= i < s.len(),
    ensures
        day_count(s.take(i + 1), doctor_id, day) == day_count(s.take(i), doctor_id, day)
            + if counts_for(s[i], doctor_id, day) {
            1int
        } else {
            0int
        },
        day_minutes(s.take(i + 1), doctor_id, day) == day_minutes(s.take(i), doctor_id, day)
            + if counts_for(s[i], doctor_id, day) {
            s[i].duration as int
        } else {
            0int
        },
{
    assert(s.take(i + 1).drop_last() =~= s.take(i));
    assert(s.take(i + 1).last() == s[i]);
}

/// Replacing one appointment shifts the day's statistics by the difference
/// of the two contributions.
pub proof fn lemma_day_update(
    s: Seq<Appointment>,
    k: int,
    a: Appointment,
    doctor_id: i32,
    day: Date,
)
    requires
        0 <= k < s.len(),
    ensures
        day_count(s.update(k, a), doctor_id, day) == day_count(s, doctor_id, day) - (if counts_for(
            s[k],
            doctor_id,
            day,
        ) {
            1int
        } else {
            0int
        }) + (if counts_for(a, doctor_id, day) {
            1int
        } else {
            0int
        }),
        day_minutes(s.update(k, a), doctor_id, day) == day_minutes(s, doctor_id, day) - (
        if counts_for(s[k], doctor_id, day) {
            s[k].duration as int
        } else {
            0int
        }) + (if counts_for(a, doctor_id, day) {
            a.duration as int
        } else {
            0int
        }),
    decreases s.len(),
{
    let t = s.update(k, a);
    if k == s.len() - 1 {
        assert(t.drop_last() =~= s.drop_last());
        assert(t.last() == a);
    } else {
        assert(t.drop_last() =~= s.drop_last().update(k, a));
        assert(t.last() == s.last());
        lemma_day_update(s.drop_last(), k, a, doctor_id, day);
        assert(s.drop_last()[k] == s[k]);
    }
}

/// Whether `a` starts on `day` and belongs to `doctor_id`, whatever its
/// status.
pub open spec fn on_day(a: Appointment, doctor_id: i32, day: Date) -> bool {
    a.doctor_id == doctor_id && a.start_date.date == day
}

/// The appointments of `doctor_id` starting on `day`, in table order,
/// cancelled ones included.
pub open spec fn doctor_day_appts(s: Seq<Appointment>, doctor_id: i32, day: Date) -> Seq<
    Appointment,
>
    decreases s.len(),
{
    if s.len() == 0 {
        Seq::empty()
    } else {
        doctor_day_appts(s.drop_last(), doctor_id, day) + if on_day(s.last(), doctor_id, day) {
            seq![s.last()]
        } else {
            Seq::empty()
        }
    }
}

pub proof fn lemma_doctor_day_appts_take_succ(
    s: Seq<Appointment>,
    i: int,
    doctor_id: i32,
    day: Date,
)
    requires
        0 <= i < s.len(),
    ensures
        doctor_day_appts(s.take(i + 1), doctor_id, day) == if on_day(s[i], doctor_id, day) {
            doctor_day_appts(s.take(i), doctor_id, day).push(s[i])
        } else {
            doctor_day_appts(s.take(i), doctor_id, day)
        },
{
    assert(s.take(i + 1).drop_last() =~= s.take(i));
    assert(s.take(i + 1).last() == s[i]);
    if on_day(s[i], doctor_id, day) {
        assert(doctor_day_appts(s.take(i), doctor_id, day) + seq![s[i]] =~= doctor_day_appts(
            s.take(i),
            doctor_id,
            day,
        ).push(s[i]));
    } else {
        assert(doctor_day_appts(s.take(i), doctor_id, day) + Seq::empty() =~= doctor_day_appts(
            s.take(i),
            doctor_id,
            day,
        ));
    }
}

/// The appointments of `patient_id`, in table order, all statuses and all
/// days.
pub open spec fn patient_appts(s: Seq<Appointment>, patient_id: i32) -> Seq<Appointment>
    decreases s.len(),
{
    if s.len() == 0 {
        Seq::empty()
    } else {
        patient_appts(s.drop_last(), patient_id) + if s.last().patient_id == patient_id {
            seq![s.last()]
        } else {
            Seq::empty()
        }
    }
}

pub proof fn lemma_patient_appts_take_succ(s: Seq<Appointment>, i: int, patient_id: i32)
    requires
        0 <= i < s.len(),
    ensures
        patient_appts(s.take(i + 1), patient_id) == if s[i].patient_id == patient_id {
            patient_appts(s.take(i), patient_id).push(s[i])
        } else {
            patient_appts(s.take(i), patient_id)
        },
{
    assert(s.take(i + 1).drop_last() =~= s.take(i));
    assert(s.take(i + 1).last() == s[i]);
    if s[i].patient_id == patient_id {
        assert(patient_appts(s.take(i), patient_id) + seq![s[i]] =~= patient_appts(
            s.take(i),
            patient_id,
        ).push(s[i]));
    } else {
        assert(patient_appts(s.take(i), patient_id) + Seq::empty() =~= patient_appts(
            s.take(i),
            patient_id,
        ));
    }
}

/// The daily statistics of the doctors with the given ids, in that order.
pub open spec fn spec_doctor_stats(ids: Seq<i32>, appts: Seq<Appointment>, day: Date) -> Seq<
    DoctorAppointmentStats,
> {
    Seq::new(
        ids.len(),
        |k: int|
            DoctorAppointmentStats {
                doctor_id: ids[k],
                appointments_count: day_count(appts, ids[k], day) as i32,
                booked_mins: day_minutes(appts, ids[k], day) as i32,
            },
    )
}

/// The threshold for the over-hours report, in minutes.
pub const OVER_HOURS_MINUTES: i32 = 360;

/// The stats rows of doctors strictly under both daily ceilings: a doctor
/// standing exactly at a ceiling is not available.
pub open spec fn available_stats(s: Seq<DoctorAppointmentStats>) -> Seq<DoctorAppointmentStats>
    decreases s.len(),
{
    if s.len() == 0 {
        Seq::empty()
    } else {
        available_stats(s.drop_last()) + if s.last().booked_mins < MAX_DAILY_MINUTES
            && s.last().appointments_count < MAX_DAILY_APPOINTMENTS {
            seq![s.last()]
        } else {
            Seq::empty()
        }
    }
}

pub proof fn lemma_available_stats_take_succ(s: Seq<DoctorAppointmentStats>, i: int)
    requires
        0 <= i < s.len(),
    ensures
        available_stats(s.take(i + 1)) == if s[i].booked_mins < MAX_DAILY_MINUTES
            && s[i].appointments_count < MAX_DAILY_APPOINTMENTS {
            available_stats(s.take(i)).push(s[i])
        } else {
            available_stats(s.take(i))
        },
{
    assert(s.take(i + 1).drop_last() =~= s.take(i));
    assert(s.take(i + 1).last() == s[i]);
    if s[i].booked_mins < MAX_DAILY_MINUTES && s[i].appointments_count < MAX_DAILY_APPOINTMENTS {
        assert(available_stats(s.take(i)) + seq![s[i]] =~= available_stats(s.take(i)).push(s[i]));
    } else {
        assert(available_stats(s.take(i)) + Seq::empty() =~= available_stats(s.take(i)));
    }
}

/// The largest appointment count among the stats rows; zero when there
/// are none.
pub open spec fn max_count(s: Seq<DoctorAppointmentStats>) -> int
    decreases s.len(),
{
    if s.len() == 0 {
        0
    } else {
        let m = max_count(s.drop_last());
        if s.last().appointments_count > m {
            s.last().appointments_count as int
        } else {
            m
        }
    }
}

pub proof fn lemma_max_count_take_succ(s: Seq<DoctorAppointmentStats>, i: int)
    requires
        0 <= i < s.len(),
    ensures
        max_count(s.take(i + 1)) == if s[i].appointments_count > max_count(s.take(i)) {
            s[i].appointments_count as int
        } else {
            max_count(s.take(i))
        },
{
    assert(s.take(i + 1).drop_last() =~= s.take(i));
    assert(s.take(i + 1).last() == s[i]);
}

/// The stats rows whose appointment count equals `m`.
pub open spec fn stats_with_count(s: Seq<DoctorAppointmentStats>, m: int) -> Seq<
    DoctorAppointmentStats,
>
    decreases s.len(),
{
    if s.len() == 0 {
        Seq::empty()
    } else {
        stats_with_count(s.drop_last(), m) + if s.last().appointments_count == m {
            seq![s.last()]
        } else {
            Seq::empty()
        }
    }
}

pub proof fn lemma_stats_with_count_take_succ(s: Seq<DoctorAppointmentStats>, i: int, m: int)
    requires
        0 <= i < s.len(),
    ensures
        stats_with_count(s.take(i + 1), m) == if s[i].appointments_count == m {
            stats_with_count(s.take(i), m).push(s[i])
        } else {
            stats_with_count(s.take(i), m)
        },
{
    assert(s.take(i + 1).drop_last() =~= s.take(i));
    assert(s.take(i + 1).last() == s[i]);
    if s[i].appointments_count == m {
        assert(stats_with_count(s.take(i), m) + seq![s[i]] =~= stats_with_count(
            s.take(i),
            m,
        ).push(s[i]));
    } else {
        assert(stats_with_count(s.take(i), m) + Seq::empty() =~= stats_with_count(s.take(i), m));
    }
}

/// The stats rows at or over the over-hours threshold.
pub open spec fn over_hours_stats(s: Seq<DoctorAppointmentStats>) -> Seq<DoctorAppointmentStats>
    decreases s.len(),
{
    if s.len() == 0 {
        Seq::empty()
    } else {
        over_hours_stats(s.drop_last()) + if s.last().booked_mins >= OVER_HOURS_MINUTES {
            seq![s.last()]
        } else {
            Seq::empty()
        }
    }
}

pub proof fn lemma_over_hours_stats_take_succ(s: Seq<DoctorAppointmentStats>, i: int)
    requires
        0 <= i < s.len(),
    ensures
        over_hours_stats(s.take(i + 1)) == if s[i].booked_mins >= OVER_HOURS_MINUTES {
            over_hours_stats(s.take(i)).push(s[i])
        } else {
            over_hours_stats(s.take(i))
        },
{
    assert(s.take(i + 1).drop_last() =~= s.take(i));
    assert(s.take(i + 1).last() == s[i]);
    if s[i].booked_mins >= OVER_HOURS_MINUTES {
        assert(over_hours_stats(s.take(i)) + seq![s[i]] =~= over_hours_stats(s.take(i)).push(
            s[i],
        ));
    } else {
        assert(over_hours_stats(s.take(i)) + Seq::empty() =~= over_hours_stats(s.take(i)));
    }
}

/// Aggregates one doctor's statistics for one day over the appointment
/// table, excluding cancelled appointments.
pub fn compute_daily_stats(
    appointments: &Vec<Appointment>,
    doctor_id: i32,
    day: Date,
) -> (stats: DoctorAppointmentStats)
    requires
        forall|k: int| 0 <= k < appointments@.len() ==> appointments@[k].duration >= 0,
        day_count(appointments@, doctor_id, day) <= i32::MAX,
        day_minutes(appointments@, doctor_id, day) <= i32::MAX,
    ensures
        stats.doctor_id == doctor_id,
        stats.appointments_count == day_count(appointments@, doctor_id, day),
        stats.booked_mins == day_minutes(appointments@, doctor_id, day),
{
    let mut count: i32 = 0;
    let mut mins: i32 = 0;
    let n = appointments.len();
    for i in 0..n
        invariant
            n == appointments@.len(),
            forall|k: int| 0 <= k < appointments@.len() ==> appointments@[k].duration >= 0,
            day_count(appointments@, doctor_id, day) <= i32::MAX,
            day_minutes(appointments@, doctor_id, day) <= i32::MAX,
            count == day_count(appointments@.take(i as int), doctor_id, day),
            mins == day_minutes(appointments@.take(i as int), doctor_id, day),
    {
        proof {
            lemma_day_take_succ(appointments@, i as int, doctor_id, day);
            lemma_day_take_le(appointments@, i + 1, doctor_id, day);
            lemma_day_nonneg(appointments@.take(i as int), doctor_id, day);
            assert(forall|k: int|
                0 <= k < i ==> appointments@.take(i as int)[k] == appointments@[k]);
        }
        let a = appointments[i];
        if a.doctor_id == doctor_id && a.start_date.date == day && !matches!(
            a.status,
            AppointmentStatus::Cancelled,
        ) {
            count = count + 1;
            mins = mins + a.duration;
        }
    }
    proof {
        assert(appointments@.take(n as int) =~= appointments@);
    }
    DoctorAppointmentStats { doctor_id, appointments_count: count, booked_mins: mins }
}

} // verus!

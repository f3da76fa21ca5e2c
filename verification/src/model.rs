//! Core data types: accounts and their roles, appointments and their
//! lifecycle states, session claims, and the error taxonomy.

use vstd::prelude::*;

verus! {

/// The role of an account, fixed at registration.
#[derive(Clone, Copy, Debug, PartialEq, Eq, Structural)]
pub enum AccountType {
    Patient,
    Doctor,
    Admin,
}

impl AccountType {
    /// The integer code under which a role is stored and transmitted.
    pub open spec fn spec_code(self) -> i32 {
        match self {
            AccountType::Patient => 0,
            AccountType::Doctor => 1,
            AccountType::Admin => 2,
        }
    }

    pub fn code(self) -> (r: i32)
        ensures
            r == self.spec_code(),
    {
        match self {
            AccountType::Patient => 0,
            AccountType::Doctor => 1,
            AccountType::Admin => 2,
        }
    }

    /// The role a code names, if any; inverse of `spec_code`.
    pub open spec fn spec_from_code(code: int) -> Option<AccountType> {
        if code == 0 {
            Some(AccountType::Patient)
        } else if code == 1 {
            Some(AccountType::Doctor)
        } else if code == 2 {
            Some(AccountType::Admin)
        } else {
            None
        }
    }

    /// Decodes a role code; inverse of `code` on the three valid codes.
    pub fn from_code(code: i32) -> (r: Option<AccountType>)
        ensures
            r == AccountType::spec_from_code(code as int),
            r matches Some(t) ==> t.spec_code() == code,
    {
        if code == 0 {
            Some(AccountType::Patient)
        } else if code == 1 {
            Some(AccountType::Doctor)
        } else if code == 2 {
            Some(AccountType::Admin)
        } else {
            None
        }
    }
}

/// The lifecycle state of an appointment. `Booked` is the only entry point;
/// `Cancelled` and `Done` are terminal.
#[derive(Clone, Copy, Debug, PartialEq, Eq, Structural)]
pub enum AppointmentStatus {
    Booked,
    Cancelled,
    Done,
}

impl AppointmentStatus {
    /// A terminal status admits no further transition.
    pub open spec fn spec_is_terminal(self) -> bool {
        self == AppointmentStatus::Cancelled || self == AppointmentStatus::Done
    }

    pub fn is_terminal(self) -> (r: bool)
        ensures
            r == self.spec_is_terminal(),
    {
        match self {
            AppointmentStatus::Booked => false,
            AppointmentStatus::Cancelled => true,
            AppointmentStatus::Done => true,
        }
    }
}

/// A calendar date. Appointments are grouped by the date of their start
/// time in its stored offset.
#[derive(Clone, Copy, Debug, PartialEq, Eq, Structural)]
pub struct Date {
    pub year: i32,
    pub month: u8,
    pub day: u8,
}

/// A point in time with its original UTC offset: the calendar date in that
/// offset, the minute of that day, and the offset itself in minutes.
#[derive(Clone, Copy, Debug, PartialEq, Eq, Structural)]
pub struct Timestamp {
    pub date: Date,
    pub minute_of_day: u16,
    pub offset_minutes: i16,
}

/// A registered account. The password is kept only as an encoded hash.
#[derive(Debug, Clone)]
pub struct Account {
    pub id: i32,
    pub name: String,
    pub email: String,
    pub passhash: String,
    pub account_type: AccountType,
}

/// The role-specific profile row of a Doctor account.
#[derive(Debug, Clone)]
pub struct DoctorProfile {
    pub account_id: i32,
    pub specialty: String,
    pub details: String,
}

/// A doctor's public profile as returned to callers.
#[derive(Debug, Clone)]
pub struct DoctorInfo {
    pub name: String,
    pub specialty: String,
    pub details: String,
}

/// A booked slot.
#[derive(Clone, Copy, Debug, PartialEq, Eq, Structural)]
pub struct Appointment {
    pub id: i32,
    pub doctor_id: i32,
    pub patient_id: i32,
    pub start_date: Timestamp,
    pub duration: i32,
    pub status: AppointmentStatus,
}

/// A request to book a slot, before admission.
#[derive(Clone, Copy, Debug)]
pub struct AppointmentRequest {
    pub doctor_id: i32,
    pub patient_id: i32,
    pub start_date: Timestamp,
    pub duration: i32,
}

/// The identity recovered from a verified bearer token.
#[derive(Clone, Copy, Debug, PartialEq, Eq, Structural)]
pub struct Claims {
    pub sub: i32,
    pub account_type: AccountType,
    pub iat: u64,
}

/// What a caller submits to register an account.
#[derive(Debug, Clone)]
pub struct RegisterData {
    pub name: String,
    pub email: String,
    pub password: String,
    pub account_type: AccountType,
}

/// What a caller submits to log in.
#[derive(Debug, Clone)]
pub struct LoginData {
    pub email: String,
    pub password: String,
}

/// Why an operation was refused.
#[derive(Clone, Copy, Debug, PartialEq, Eq, Structural)]
pub enum Error {
    /// Registration with an email that an account already holds.
    DuplicateEmail,
    /// Login with an unknown email or a wrong password.
    InvalidCredentials,
    /// A booking that the admission rule rejects.
    SlotUnavailable,
    /// A status change out of a terminal status, or to `Booked`.
    InvalidTransition,
    /// The referenced account or appointment does not exist.
    NotFound,
    /// The caller's role or ownership does not admit the operation.
    Forbidden,
    /// A date string that does not parse as `YYYY-MM-DD`.
    InvalidDate,
    /// The password hashing primitive failed.
    HashingError,
    /// The token signing primitive failed.
    TokenError,
}

} // verus!

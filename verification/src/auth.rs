//! The authorization gate. A capability is a predicate over the verified
//! claims; each protected operation names the checker it demands, and a
//! guard for that checker can only be built from claims the predicate
//! admits — holding a guard is holding proof of the check. Ownership
//! rules, which depend on the resource as well as the role, are the
//! `can_*` predicates beneath.

use vstd::prelude::*;

use crate::model::{AccountType, Appointment, Claims, Error};
use crate::session::{claims_of_token, decode_jwt, token_claims};

verus! {

/// A capability: a predicate over claims, with its runtime check tied to
/// the predicate by contract.
pub trait ValidClaimsChecker {
    /// The set of claims this capability admits.
    spec fn allowed(claims: Claims) -> bool;

    /// The runtime check; it decides exactly `allowed`.
    fn is_valid(claims: &Claims) -> (r: bool)
        ensures
            r == Self::allowed(*claims),
    ;
}

impl Claims {
    /// Whether these claims pass the capability `T`.
    pub fn is_valid<T: ValidClaimsChecker>(&self) -> (r: bool)
        ensures
            r == T::allowed(*self),
    {
        T::is_valid(self)
    }
}

/// Admits only administrators.
#[allow(non_camel_case_types)]
pub struct ADMIN {}

impl ValidClaimsChecker for ADMIN {
    open spec fn allowed(claims: Claims) -> bool {
        claims.account_type == AccountType::Admin
    }

    fn is_valid(claims: &Claims) -> bool {
        claims.account_type == AccountType::Admin
    }
}

/// Admits only doctors.
#[allow(non_camel_case_types)]
pub struct DOCTOR {}

impl ValidClaimsChecker for DOCTOR {
    open spec fn allowed(claims: Claims) -> bool {
        claims.account_type == AccountType::Doctor
    }

    fn is_valid(claims: &Claims) -> bool {
        claims.account_type == AccountType::Doctor
    }
}

/// Admits only patients.
#[allow(non_camel_case_types)]
pub struct PATIENT {}

impl ValidClaimsChecker for PATIENT {
    open spec fn allowed(claims: Claims) -> bool {
        claims.account_type == AccountType::Patient
    }

    fn is_valid(claims: &Claims) -> bool {
        claims.account_type == AccountType::Patient
    }
}

/// Admits every authenticated caller.
#[allow(non_camel_case_types)]
pub struct ALL {}

impl ValidClaimsChecker for ALL {
    open spec fn allowed(claims: Claims) -> bool {
        true
    }

    fn is_valid(claims: &Claims) -> bool {
        true
    }
}

/// Admits doctors and administrators.
#[allow(non_camel_case_types)]
pub struct DOCTOR_ADMIN {}

impl ValidClaimsChecker for DOCTOR_ADMIN {
    open spec fn allowed(claims: Claims) -> bool {
        claims.account_type == AccountType::Doctor || claims.account_type == AccountType::Admin
    }

    fn is_valid(claims: &Claims) -> bool {
        claims.account_type == AccountType::Doctor || claims.account_type == AccountType::Admin
    }
}

/// Why authentication failed: no token was presented, or the presented
/// token or its claims were rejected.
#[derive(Clone, Copy, Debug, PartialEq, Eq, Structural)]
pub enum AuthError {
    Missing,
    Invalid,
}

/// Proof of a passed capability check: a guard for `T` holds claims that
/// `T` admits, and can only be built through the check.
pub struct AccountGuard<T: ValidClaimsChecker> {
    claims: Claims,
    phantom: core::marker::PhantomData<T>,
}

impl<T: ValidClaimsChecker> AccountGuard<T> {
    /// The claims this guard vouches for.
    pub closed spec fn claims(self) -> Claims {
        self.claims
    }

    /// A guard is only ever built over claims its capability admits.
    pub open spec fn wf(self) -> bool {
        T::allowed(self.claims())
    }

    /// Gates already-verified claims through the capability.
    pub fn try_new(claims: Claims) -> (r: Option<Self>)
        ensures
            r matches Some(g) ==> g.claims() == claims && g.wf(),
            r is None <==> !T::allowed(claims),
    {
        if claims.is_valid::<T>() {
            Some(AccountGuard { claims, phantom: core::marker::PhantomData })
        } else {
            None
        }
    }

    /// Verifies a bearer token and gates the recovered claims through the
    /// capability: it succeeds exactly on tokens that decode to claims the
    /// capability admits, and then vouches for those claims.
    pub fn from_token(token: &str) -> (r: Result<Self, AuthError>)
        ensures
            r is Ok <==> (claims_of_token(token@) matches Some(c) && T::allowed(c)),
            r matches Ok(g) ==> g.wf() && claims_of_token(token@) == Some(g.claims())
                && token_claims(token@) == Some(
                (g.claims().sub as i64, g.claims().account_type.spec_code() as i64, g.claims().iat),
            ),
            r matches Err(e) ==> e == AuthError::Invalid,
    {
        match decode_jwt(token) {
            Err(_) => Err(AuthError::Invalid),
            Ok(claims) => match Self::try_new(claims) {
                Some(g) => Ok(g),
                None => Err(AuthError::Invalid),
            },
        }
    }

    /// The claims, for callers that need the role or subject id.
    pub fn claims_ref(&self) -> (r: &Claims)
        ensures
            *r == self.claims(),
    {
        &self.claims
    }
}

/// Who may see an appointment's detail: administrators always, the
/// doctor it belongs to, and the patient it belongs to.
pub open spec fn spec_can_view_appointment(c: Claims, a: Appointment) -> bool {
    ||| c.account_type == AccountType::Admin
    ||| (c.account_type == AccountType::Doctor && c.sub == a.doctor_id)
    ||| (c.account_type == AccountType::Patient && c.sub == a.patient_id)
}

pub fn can_view_appointment(c: &Claims, a: &Appointment) -> (r: bool)
    ensures
        r == spec_can_view_appointment(*c, *a),
{
    match c.account_type {
        AccountType::Admin => true,
        AccountType::Doctor => c.sub == a.doctor_id,
        AccountType::Patient => c.sub == a.patient_id,
    }
}

/// Who may cancel an appointment: administrators always, and the doctor
/// it belongs to; patients may not, not even their own.
pub open spec fn spec_can_cancel_appointment(c: Claims, a: Appointment) -> bool {
    ||| c.account_type == AccountType::Admin
    ||| (c.account_type == AccountType::Doctor && c.sub == a.doctor_id)
}

pub fn can_cancel_appointment(c: &Claims, a: &Appointment) -> (r: bool)
    ensures
        r == spec_can_cancel_appointment(*c, *a),
{
    match c.account_type {
        AccountType::Admin => true,
        AccountType::Doctor => c.sub == a.doctor_id,
        AccountType::Patient => false,
    }
}

/// Who may read a patient's history: the patient themself, and any
/// non-patient role; a patient asking for another patient's history is
/// refused.
pub open spec fn spec_can_view_history(c: Claims, patient_id: i32) -> bool {
    !(c.account_type == AccountType::Patient && c.sub != patient_id)
}

pub fn can_view_history(c: &Claims, patient_id: i32) -> (r: bool)
    ensures
        r == spec_can_view_history(*c, patient_id),
{
    !(c.account_type == AccountType::Patient && c.sub != patient_id)
}

/// Gates claims through a required capability, as each protected
/// operation does: the claims pass or the caller gets `Forbidden`.
pub fn require<T: ValidClaimsChecker>(claims: &Claims) -> (r: Result<(), Error>)
    ensures
        r is Ok <==> T::allowed(*claims),
        r matches Err(e) ==> e == Error::Forbidden,
{
    if claims.is_valid::<T>() {
        Ok(())
    } else {
        Err(Error::Forbidden)
    }
}

} // verus!

//! Decisions of the account service's sign-in and sign-up by invitation:
//! who may sign in, when the master account gets its first password, and
//! when an invitation can still be used.
use vstd::prelude::*;
use crate::session_token::{ServiceError, service_error_view};
use crate::uuid::{uuid_parse, uuid_text};

verus! {

/// The refusal of an unknown, used or expired invitation.
pub const INVALID_INVITATION_MESSAGE: &'static str = "Invalid Invitation";

/// The stored credentials of the account an address belongs to.
pub struct StoredCredentials {
    pub email: String,
    pub hash: String,
}

/// What a sign-in does once the account of the address is looked up.
#[derive(PartialEq, Eq, Structural, Clone, Copy, Debug)]
pub enum LoginPlan {
    /// The master account has no password yet: the given one becomes its
    /// password.
    SetFirstPassword,
    /// The given password is checked against the stored hash.
    CheckPassword,
    /// No account has the address: the sign-in is unauthorized.
    Refuse,
}

/// The plan for a sign-in, given the account found for the address (the
/// last one, if several were) and the configured master address.
pub open spec fn login_plan_of(account: Option<(Seq<char>, Seq<char>)>, master: Seq<char>) -> LoginPlan {
    match account {
        None => LoginPlan::Refuse,
        Some((email, hash)) => if email == master && hash.len() == 0 {
            LoginPlan::SetFirstPassword
        } else {
            LoginPlan::CheckPassword
        },
    }
}

/// Plans a sign-in.
pub fn login_plan(account: Option<&StoredCredentials>, master_email: &str) -> (p: LoginPlan)
    ensures
        p == login_plan_of(
            match account {
                Some(a) => Some((a.email@, a.hash@)),
                None => None,
            },
            master_email@,
        ),
{
    match account {
        None => LoginPlan::Refuse,
        Some(a) => {
            if crate::text::str_equal(a.email.as_str(), master_email) && crate::user_input::char_count(a.hash.as_str()) == 0 {
                LoginPlan::SetFirstPassword
            } else {
                LoginPlan::CheckPassword
            }
        },
    }
}

/// The outcome of checking a password: only a check that ran and found a
/// match lets the caller in; anything else is unauthorized.
pub fn password_verdict(check: Result<bool, ServiceError>) -> (r: Result<(), ServiceError>)
    ensures
        match check {
            Ok(true) => r is Ok,
            _ => r matches Err(ServiceError::Unauthorized),
        },
{
    match check {
        Ok(true) => Ok(()),
        _ => Err(ServiceError::Unauthorized),
    }
}

/// The error of a failed update of the master account's first password:
/// a bad request carrying the database's message.
pub fn first_password_failure(message: String) -> (e: ServiceError)
    ensures
        e matches ServiceError::BadRequest(m) && m@ == message@,
{
    ServiceError::BadRequest(message)
}

/// What was found while carrying out a sign-in plan, for an account
/// answered with a `T`.
pub enum LoginEvidence<T> {
    /// No account has the address.
    NoAccount,
    /// The master account's first password could not be hashed.
    HashFailed(ServiceError),
    /// The master account's first password was hashed, and storing it gave
    /// the updated account or the database's message.
    Stored(Result<T, String>),
    /// The password was checked against the stored hash of this account.
    Checked(Result<bool, ServiceError>, T),
}

/// The outcome of a sign-in from what its plan found: no account is
/// unauthorized; a hashing failure is passed on; a stored first password
/// signs in the updated account, and a failed store is a bad request with
/// the database's message; a checked password signs in the account only
/// when the check ran and matched, otherwise it is unauthorized.
pub fn login_result<T>(evidence: LoginEvidence<T>) -> (r: Result<T, ServiceError>)
    ensures
        match evidence {
            LoginEvidence::NoAccount => r matches Err(ServiceError::Unauthorized),
            LoginEvidence::HashFailed(e) => r matches Err(x) && service_error_view(x) == service_error_view(e),
            LoginEvidence::Stored(Ok(u)) => r == Ok::<T, ServiceError>(u),
            LoginEvidence::Stored(Err(m)) => r matches Err(ServiceError::BadRequest(x)) && x@ == m@,
            LoginEvidence::Checked(check, u) => match check {
                Ok(true) => r == Ok::<T, ServiceError>(u),
                _ => r matches Err(ServiceError::Unauthorized),
            },
        },
{
    match evidence {
        LoginEvidence::NoAccount => Err(ServiceError::Unauthorized),
        LoginEvidence::HashFailed(e) => Err(e),
        LoginEvidence::Stored(Ok(u)) => Ok(u),
        LoginEvidence::Stored(Err(m)) => Err(first_password_failure(m)),
        LoginEvidence::Checked(check, u) => match password_verdict(check) {
            Ok(()) => Ok(u),
            Err(e) => Err(e),
        },
    }
}

/// The refusal of an invitation id that is not a UUID.
pub const INVALID_UUID_MESSAGE: &'static str = "Invalid UUID";

/// Reads the id of an invitation from its text: a UUID, or a bad request.
pub fn invitation_id(raw: &str) -> (r: Result<u128, ServiceError>)
    ensures
        r matches Ok(v) ==> uuid_parse(raw@) == Some(v),
        r is Err <==> uuid_parse(raw@) is None,
        r matches Err(e) ==> (e matches ServiceError::BadRequest(m) && m@ == INVALID_UUID_MESSAGE@),
        forall|v: u128| raw@ == #[trigger] uuid_text(v) ==> r == Ok::<u128, ServiceError>(v),
{
    match crate::uuid::parse_uuid(raw) {
        Some(v) => Ok(v),
        None => Err(ServiceError::BadRequest(INVALID_UUID_MESSAGE.to_string())),
    }
}

/// Whether the moment `a` (seconds, then nanoseconds) comes after `b`.
pub open spec fn later(a: (i64, u32), b: (i64, u32)) -> bool {
    a.0 > b.0 || (a.0 == b.0 && a.1 > b.1)
}

/// Moments are ordered by their count of nanoseconds: one comes after
/// another exactly when it is more nanoseconds from the epoch; so a
/// moment of fewer whole seconds never comes after.
pub proof fn lemma_later_is_more_nanoseconds(a: (i64, u32), b: (i64, u32))
    requires
        a.1 < 1_000_000_000,
        b.1 < 1_000_000_000,
    ensures
        later(a, b) <==> a.0 * 1_000_000_000 + a.1 > b.0 * 1_000_000_000 + b.1,
        a.0 < b.0 ==> !later(a, b),
        later(a, b) ==> !later(b, a),
{
}

/// Whether an invitation found for the id (with its expiry) can be used
/// at `now`; otherwise the sign-up is a bad request.
pub fn invitation_outcome(expires_at: Option<(i64, u32)>, now: (i64, u32)) -> (r: Result<(), ServiceError>)
    ensures
        match expires_at {
            Some(e) => if later(e, now) {
                r is Ok
            } else {
                r matches Err(ServiceError::BadRequest(m)) && m@ == INVALID_INVITATION_MESSAGE@
            },
            None => r matches Err(ServiceError::BadRequest(m)) && m@ == INVALID_INVITATION_MESSAGE@,
        },
        expires_at is None ==> r is Err,
        match expires_at {
            Some(e) => (e.1 < 1_000_000_000 && now.1 < 1_000_000_000 ==> (r is Ok <==> e.0 * 1_000_000_000
                + e.1 > now.0 * 1_000_000_000 + now.1)) && (e.0 < now.0 ==> r is Err),
            None => true,
        },
{
    match expires_at {
        Some(e) => {
            if e.0 > now.0 || (e.0 == now.0 && e.1 > now.1) {
                Ok(())
            } else {
                Err(ServiceError::BadRequest(INVALID_INVITATION_MESSAGE.to_string()))
            }
        },
        None => Err(ServiceError::BadRequest(INVALID_INVITATION_MESSAGE.to_string())),
    }
}

} // verus!

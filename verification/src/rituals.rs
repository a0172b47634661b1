//! Records of the ritual service: rituals, the times they were performed,
//! its users and their invitations, and the rule that only a signed-in
//! caller reaches them.
use vstd::prelude::*;
use crate::session_token::ServiceError;

verus! {

/// A stored ritual.
pub struct Ritual {
    pub id: i32,
    pub title: String,
    pub body: String,
    pub published: bool,
    pub created_on: chrono::NaiveDateTime,
    pub updated_on: chrono::NaiveDateTime,
}

/// A ritual about to be stored.
pub struct NewRitual<'a> {
    pub title: &'a str,
    pub body: &'a str,
    pub created_on: chrono::NaiveDateTime,
    pub updated_on: chrono::NaiveDateTime,
}

/// A stored performance of a ritual.
pub struct RitualTime {
    pub id: i32,
    pub ritual_id: i32,
    pub created_on: chrono::NaiveDateTime,
}

/// A performance of a ritual about to be stored.
pub struct NewRitualTime {
    pub ritual_id: i32,
    pub created_on: chrono::NaiveDateTime,
}

/// A user of the ritual service.
pub struct User {
    pub email: String,
    pub hash: String,
    pub created_at: chrono::NaiveDateTime,
}

/// An invitation to join, valid until `expires_at`.
pub struct Invitation {
    pub id: u128,
    pub email: String,
    pub expires_at: chrono::NaiveDateTime,
}

/// What a session remembers of a user.
pub struct SlimUser {
    pub email: String,
}

/// `chrono::Local::now().naive_local()`: the current local time. The
/// clock is not modelled.
#[verifier::external_body]
fn local_now() -> (t: chrono::NaiveDateTime) {
    chrono::Local::now().naive_local()
}

/// `chrono::Local::now().naive_local() + chrono::Duration::hours(hours)`:
/// the local time `hours` hours from now. The clock is not modelled.
#[verifier::external_body]
fn local_now_plus_hours(hours: i64) -> (t: chrono::NaiveDateTime)
    requires
        0 <= hours <= 24,
{
    chrono::Local::now().naive_local() + chrono::Duration::hours(hours)
}

/// `uuid::Uuid::new_v4()`: a random identifier, as its 128-bit value.
#[verifier::external_body]
fn new_v4_id() -> (id: u128) {
    uuid::Uuid::new_v4().as_u128()
}

/// Hours an invitation stays valid.
pub const INVITATION_HOURS: i64 = 24;

impl User {
    /// A user with the given address and password hash, created now.
    pub fn from_details(email: String, pwd: String) -> (u: User)
        ensures
            u.email@ == email@,
            u.hash@ == pwd@,
    {
        User { email, hash: pwd, created_at: local_now() }
    }
}

impl Invitation {
    /// A fresh invitation for `email`, under a random identifier, valid
    /// for a day from now.
    pub fn from_email(email: String) -> (i: Invitation)
        ensures
            i.email@ == email@,
    {
        Invitation {
            id: new_v4_id(),
            email,
            expires_at: local_now_plus_hours(INVITATION_HOURS),
        }
    }
}

impl SlimUser {
    /// What a session remembers of a user: the address.
    pub fn from_user(user: User) -> (s: SlimUser)
        ensures
            s.email@ == user.email@,
    {
        SlimUser { email: user.email }
    }
}

/// The session identity a request must carry to reach the rituals:
/// without one the request is unauthorized.
pub fn require_identity(identity: Option<String>) -> (r: Result<String, ServiceError>)
    ensures
        match identity {
            Some(s) => r matches Ok(t) && t@ == s@,
            None => r matches Err(ServiceError::Unauthorized),
        },
{
    match identity {
        Some(s) => Ok(s),
        None => Err(ServiceError::Unauthorized),
    }
}

} // verus!

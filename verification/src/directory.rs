//! The user directory service: what it tells of stored users, the role
//! guard in front of its operations, and its sign-up form.
use vstd::prelude::*;
use crate::accounts::{Role, account_role_of_id};
use crate::directory_model::UserEntity;
use crate::roles::{CustomError, FORBIDDEN_MESSAGE, check_view, lookup_view, role_check_outcome};
use crate::user_input::{CheckView, add_check, add_entry, char_count, check, email_syntax_ok, entry, report_view};
use crate::validation::{FieldError, FieldErrors};

verus! {

/// What the directory tells of a user.
pub struct User {
    pub username: String,
    pub first_name: String,
    pub last_name: String,
    pub role: Role,
}

impl User {
    /// The directory's account of a stored user: its names, and its role
    /// read from the stored identifier (unknown identifiers are ordinary
    /// users).
    pub fn from_entity(entity: &UserEntity) -> (u: User)
        ensures
            u.username@ == entity.username@,
            u.first_name@ == entity.first_name@,
            u.last_name@ == entity.last_name@,
            u.role == account_role_of_id(entity.role_id),
    {
        let role = match entity.role_id {
            1 => Role::Master,
            2 => Role::Admin,
            _ => Role::User,
        };
        User {
            username: entity.username.clone(),
            first_name: entity.first_name.clone(),
            last_name: entity.last_name.clone(),
            role,
        }
    }
}

/// Lets through only callers holding one role, as the access-token role
/// check decides.
pub struct RoleGuard {
    pub role: crate::roles::Role,
}

impl RoleGuard {
    pub fn new(role: crate::roles::Role) -> (g: RoleGuard)
        ensures
            g.role == role,
    {
        RoleGuard { role }
    }

    /// Whether a request passes, given the outcome of looking up the
    /// caller's role if the request carries one: without a lookup the
    /// caller is forbidden; otherwise the role check decides and its
    /// error message is the refusal.
    pub fn check(&self, lookup: Option<&Result<Option<crate::roles::Role>, CustomError>>) -> (r: Result<
        (),
        String,
    >)
        ensures
            match lookup {
                None => r matches Err(m) && m@ == FORBIDDEN_MESSAGE@,
                Some(l) => match role_check_outcome(lookup_view(*l), self.role) {
                    Ok(()) => r is Ok,
                    Err(m) => r matches Err(t) && t@ == m,
                },
            },
    {
        match lookup {
            Some(l) => {
                let c = crate::roles::check_user_role_is_allowed(l, &self.role);
                proof {
                    assert(check_view(c) == role_check_outcome(lookup_view(*l), self.role));
                }
                match c {
                    Ok(()) => Ok(()),
                    Err(e) => Err(e.message),
                }
            },
            None => Err(FORBIDDEN_MESSAGE.to_string()),
        }
    }
}

/// What the directory tells of an account after signing up or in.
pub struct UserResponseInner {
    pub email: String,
    pub token: String,
    pub username: String,
    pub bio: Option<String>,
    pub image: Option<String>,
}

/// The directory's answer about an account.
pub struct UserResponse {
    pub user: UserResponseInner,
}

/// The directory's sign-up form.
pub struct RegisterUser {
    pub username: String,
    pub email: String,
    pub password: String,
}

/// The failed checks of the directory's sign-up form.
pub open spec fn directory_register_report(username: Seq<char>, email: Seq<char>, password: Seq<char>) -> Seq<
    (Seq<char>, Seq<CheckView>),
> {
    entry("username"@, check(username.len() < 3, "length"@, Some("must be at least 3 characters"@)))
        + entry("email"@, check(!email_syntax_ok(email), "email"@, Some("not a valid email address"@)))
        + entry(
        "password"@,
        check(password.len() < 8 || password.len() > 72, "length"@, Some("must be 8-72 characters"@)),
    )
}

impl RegisterUser {
    /// Checks the form; the report is empty when every check passes.
    pub fn validate(&self) -> (r: Vec<FieldErrors>)
        ensures
            report_view(r@) == directory_register_report(self.username@, self.email@, self.password@),
    {
        let mut report: Vec<FieldErrors> = Vec::new();
        let mut u: Vec<FieldError> = Vec::new();
        add_check(&mut u, char_count(self.username.as_str()) < 3, "length", Some("must be at least 3 characters"));
        add_entry(&mut report, "username", u);
        let mut e: Vec<FieldError> = Vec::new();
        let bad_email = !crate::user_input::email_is_valid(self.email.as_str());
        add_check(&mut e, bad_email, "email", Some("not a valid email address"));
        add_entry(&mut report, "email", e);
        let mut p: Vec<FieldError> = Vec::new();
        let n = char_count(self.password.as_str());
        add_check(&mut p, n < 8 || n > 72, "length", Some("must be 8-72 characters"));
        add_entry(&mut report, "password", p);
        proof {
            assert(report_view(report@) =~= directory_register_report(self.username@, self.email@, self.password@));
        }
        report
    }
}

} // verus!

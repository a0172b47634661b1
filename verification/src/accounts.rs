//! Accounts of the GraphQL user service: stored users, the answers about
//! them, role guards, and the steps of signing up, signing in and
//! changing an account.
use vstd::prelude::*;
use crate::user_input::{RegisterUser, UpdateUser, add_check, add_entry, check, entry, report_view, CheckView};
use crate::validation::{ApiError, FieldError, FieldErrors};
use crate::text::{ascii_upper, trim};
use vstd::utf8::encode_utf8;

verus! {

#[verifier::external_type_specification]
#[verifier::external_body]
pub struct ExNaiveDateTime(chrono::NaiveDateTime);

/// The roles of the user service. A stored identifier other than those
/// of the master and the administrators denotes an ordinary user.
#[derive(PartialEq, Eq, Structural, Clone, Copy, Debug)]
pub enum Role {
    Master,
    Admin,
    User,
}

/// The stored identifier of a role.
pub open spec fn account_role_id(r: Role) -> i32 {
    match r {
        Role::Master => 1,
        Role::Admin => 2,
        Role::User => 3,
    }
}

/// The role a stored identifier denotes: 1 the master, 2 an
/// administrator, anything else an ordinary user.
pub open spec fn account_role_of_id(id: i32) -> Role {
    if id == 1 {
        Role::Master
    } else if id == 2 {
        Role::Admin
    } else {
        Role::User
    }
}

/// The name of a role in screaming snake case.
pub open spec fn account_role_name(r: Role) -> Seq<char> {
    match r {
        Role::Master => "MASTER"@,
        Role::Admin => "ADMIN"@,
        Role::User => "USER"@,
    }
}

/// The role a name denotes; the match is exact and case sensitive.
pub open spec fn account_role_of_name(s: Seq<char>) -> Option<Role> {
    if s == "MASTER"@ {
        Some(Role::Master)
    } else if s == "ADMIN"@ {
        Some(Role::Admin)
    } else if s == "USER"@ {
        Some(Role::User)
    } else {
        None
    }
}

impl Role {
    pub fn to_i32(&self) -> (id: i32)
        ensures
            id == account_role_id(*self),
    {
        match self {
            Role::Master => 1,
            Role::Admin => 2,
            Role::User => 3,
        }
    }

    /// The role a stored identifier denotes; unknown identifiers are
    /// ordinary users.
    pub fn from_i32(role_id: i32) -> (r: Role)
        ensures
            r == account_role_of_id(role_id),
    {
        match role_id {
            1 => Role::Master,
            2 => Role::Admin,
            _ => Role::User,
        }
    }

    /// The screaming snake case name of the role.
    pub fn to_string(&self) -> (s: String)
        ensures
            s@ == account_role_name(*self),
    {
        proof {
            reveal_strlit("MASTER");
            reveal_strlit("ADMIN");
            reveal_strlit("USER");
        }
        match self {
            Role::Master => "MASTER".to_string(),
            Role::Admin => "ADMIN".to_string(),
            Role::User => "USER".to_string(),
        }
    }

    /// Parses an exact role name.
    pub fn from_str(s: &str) -> (r: Option<Role>)
        ensures
            r == account_role_of_name(s@),
    {
        if crate::text::str_equal(s, "MASTER") {
            Some(Role::Master)
        } else if crate::text::str_equal(s, "ADMIN") {
            Some(Role::Admin)
        } else if crate::text::str_equal(s, "USER") {
            Some(Role::User)
        } else {
            None
        }
    }
}

/// A role's stored identifier denotes that role again.
pub proof fn lemma_account_role_id_roundtrip(r: Role)
    ensures
        account_role_of_id(account_role_id(r)) == r,
{
}

/// A role's name denotes that role again.
pub proof fn lemma_account_role_name_roundtrip(r: Role)
    ensures
        account_role_of_name(account_role_name(r)) == Some(r),
{
    reveal_strlit("MASTER");
    reveal_strlit("ADMIN");
    reveal_strlit("USER");
    assert("MASTER"@.len() != "ADMIN"@.len());
    assert("MASTER"@.len() != "USER"@.len());
    assert("ADMIN"@.len() != "USER"@.len());
}

/// The stored identifiers a guard for role `r` lets through: for the
/// master and the administrators only their own identifier, for ordinary
/// users every identifier that is neither of those.
pub proof fn lemma_guard_identifiers(r: Role, id: i32)
    ensures
        account_role_of_id(id) == r <==> (if r == Role::User {
            id != 1 && id != 2
        } else {
            id == account_role_id(r)
        }),
{
}

/// Whether a requested role name, made uppercase, names a role.
pub open spec fn role_request_ok(role: Seq<char>) -> bool {
    account_role_of_name(role.map_values(|c: char| ascii_upper(c))) is Some
}

/// Checks a requested role name: any ASCII case of a role's name passes.
pub fn validate_role(role: &str) -> (r: Result<(), FieldError>)
    ensures
        match r {
            Ok(()) => role_request_ok(role@),
            Err(e) => !role_request_ok(role@) && e.code@ == "invalid_role"@ && e.message is None,
        },
{
    let upper = crate::text::to_ascii_uppercase(crate::text::chars_of(role).as_slice());
    let name = crate::text::string_from(upper.as_slice());
    match Role::from_str(name.as_str()) {
        Some(_) => Ok(()),
        None => Err(FieldError { code: "invalid_role".to_string(), message: None }),
    }
}

/// The form changing the role of an account.
pub struct UpdateUserRole {
    pub username: String,
    pub role: String,
}

/// The failed checks of a role change form; `username_known` tells
/// whether an account with the trimmed name exists.
pub open spec fn role_change_report(role: Seq<char>, username_known: bool) -> Seq<(Seq<char>, Seq<CheckView>)> {
    entry("username"@, check(!username_known, "invalid_username"@, Some("user not found"@))) + entry(
        "role"@,
        check(!role_request_ok(role), "invalid_role"@, Some("param must be 'admin' or 'user'"@)),
    )
}

impl UpdateUserRole {
    /// Checks the form; the report is empty when every check passes.
    pub fn validate(&self, username_known: bool) -> (r: Vec<FieldErrors>)
        ensures
            report_view(r@) == role_change_report(self.role@, username_known),
    {
        let mut report: Vec<FieldErrors> = Vec::new();
        let mut u: Vec<FieldError> = Vec::new();
        add_check(&mut u, !username_known, "invalid_username", Some("user not found"));
        add_entry(&mut report, "username", u);
        let mut r: Vec<FieldError> = Vec::new();
        let bad_role = validate_role(self.role.as_str()).is_err();
        add_check(&mut r, bad_role, "invalid_role", Some("param must be 'admin' or 'user'"));
        add_entry(&mut report, "role", r);
        proof {
            assert(report_view(report@) =~= role_change_report(self.role@, username_known));
        }
        report
    }

    /// The stored identifier of the requested role, for a form whose role
    /// passed its check.
    pub fn requested_role_id(&self) -> (id: i32)
        requires
            role_request_ok(self.role@),
        ensures
            account_role_of_name(self.role@.map_values(|c: char| ascii_upper(c))) matches Some(r)
                && id == account_role_id(r),
    {
        let upper = crate::text::to_ascii_uppercase(crate::text::chars_of(self.role.as_str()).as_slice());
        let name = crate::text::string_from(upper.as_slice());
        match Role::from_str(name.as_str()) {
            Some(r) => r.to_i32(),
            None => 3,
        }
    }
}

/// A stored account.
pub struct User {
    pub id: u128,
    pub role_id: i32,
    pub username: String,
    pub first_name: String,
    pub last_name: String,
    pub email: String,
    pub email_verified: bool,
    pub hash: String,
    pub created_at: chrono::NaiveDateTime,
    pub updated_at: chrono::NaiveDateTime,
}

/// What is told about an account: its names and address and, after a
/// sign-in, a token.
pub struct UserResponseInner {
    pub email: String,
    pub token: Option<String>,
    pub username: String,
    pub first_name: String,
    pub last_name: String,
}

/// The answer about an account.
pub struct UserResponse {
    pub user: UserResponseInner,
}

/// Whether an answer tells the given account's names and address, with
/// the given token.
pub open spec fn tells(r: UserResponse, u: User, token: Option<Seq<char>>) -> bool {
    &&& r.user.email@ == u.email@
    &&& r.user.username@ == u.username@
    &&& r.user.first_name@ == u.first_name@
    &&& r.user.last_name@ == u.last_name@
    &&& match (r.user.token, token) {
        (Some(a), Some(b)) => a@ == b,
        (None, None) => true,
        _ => false,
    }
}

impl User {
    /// The answer about this account carrying `token`, issued for it.
    pub fn token_response(&self, token: String) -> (r: UserResponse)
        ensures
            tells(r, *self, Some(token@)),
    {
        UserResponse {
            user: UserResponseInner {
                token: Some(token),
                email: self.email.clone(),
                username: self.username.clone(),
                first_name: self.first_name.clone(),
                last_name: self.last_name.clone(),
            },
        }
    }

    /// The answer about this account, without a token.
    pub fn non_token_response(&self) -> (r: UserResponse)
        ensures
            tells(r, *self, None),
    {
        UserResponse {
            user: UserResponseInner {
                token: None,
                email: self.email.clone(),
                username: self.username.clone(),
                first_name: self.first_name.clone(),
                last_name: self.last_name.clone(),
            },
        }
    }
}

/// An account together with the token it presented.
pub struct Auth {
    pub user: User,
    pub token: String,
}

/// A request to find the account a token belongs to.
pub struct GenerateAuth {
    pub token: String,
}

/// The token a request carries.
pub struct Token(pub String);

impl UserResponse {
    /// The answer about an authenticated account, carrying its token.
    pub fn from_auth(auth: Auth) -> (r: UserResponse)
        ensures
            tells(r, auth.user, Some(auth.token@)),
    {
        let ghost user = auth.user;
        let ghost token = auth.token@;
        UserResponse {
            user: UserResponseInner {
                token: Some(auth.token),
                email: auth.user.email,
                username: auth.user.username,
                first_name: auth.user.first_name,
                last_name: auth.user.last_name,
            },
        }
    }
}

/// The refusal of a request that carries no token.
pub const NO_AUTHORIZATION_MESSAGE: &'static str = "no authorization was provided";

/// The lookup a request's token asks for: without a token the request is
/// unauthorized.
pub fn authenticate_token(token: Option<&Token>) -> (r: Result<GenerateAuth, ApiError>)
    ensures
        match token {
            Some(t) => r matches Ok(g) && g.token@ == t.0@,
            None => r matches Err(ApiError::Unauthorized(m)) && m@ == NO_AUTHORIZATION_MESSAGE@,
        },
{
    match token {
        Some(t) => Ok(GenerateAuth { token: t.0.clone() }),
        None => Err(ApiError::Unauthorized(NO_AUTHORIZATION_MESSAGE.to_string())),
    }
}

/// A new account as it is stored.
pub struct NewUser {
    pub email: String,
    pub username: String,
    pub first_name: String,
    pub last_name: String,
    pub hash: String,
    pub role_id: i32,
}

/// The identifier given to accounts made by signing up: ordinary users.
pub const NEW_ACCOUNT_ROLE_ID: i32 = 3;

impl NewUser {
    /// The account a sign-up form makes, with the hash of its password:
    /// names trimmed, the address as given, an ordinary user.
    pub fn from_registration(form: &RegisterUser, hash: String) -> (n: NewUser)
        ensures
            n.username@ == trim(form.username@),
            n.first_name@ == trim(form.first_name@),
            n.last_name@ == trim(form.last_name@),
            n.email@ == form.email@,
            n.hash@ == hash@,
            n.role_id == NEW_ACCOUNT_ROLE_ID,
    {
        NewUser {
            username: trimmed_string(form.username.as_str()),
            first_name: trimmed_string(form.first_name.as_str()),
            last_name: trimmed_string(form.last_name.as_str()),
            email: form.email.clone(),
            hash,
            role_id: NEW_ACCOUNT_ROLE_ID,
        }
    }
}

/// `s` without leading and trailing white space, as a new string.
fn trimmed_string(s: &str) -> (r: String)
    ensures
        r@ == trim(s@),
{
    let t = crate::text::trimmed(crate::text::chars_of(s).as_slice());
    crate::text::string_from(t.as_slice())
}

/// A change to an account; absent fields stay as they are.
pub struct UserChange {
    pub username: Option<String>,
    pub email: Option<String>,
    pub email_verified: Option<bool>,
    pub first_name: Option<String>,
    pub last_name: Option<String>,
    pub hash: Option<String>,
}

/// A change of the role of an account.
pub struct UserRoleChange {
    pub role_id: i32,
}

/// An account change form together with the account it comes from.
pub struct UpdateUserOuter {
    pub auth: Auth,
    pub update_user: UpdateUser,
}

impl UserChange {
    /// The change an account change form asks for, where `hash` is the
    /// hash of the new password if the form gives one.
    pub fn from_update(update: UpdateUser, hash: Option<String>) -> (c: UserChange)
        ensures
            crate::user_input::opt_text(c.username) == crate::user_input::opt_text(update.username),
            crate::user_input::opt_text(c.email) == crate::user_input::opt_text(update.email),
            c.email_verified == update.email_verified,
            crate::user_input::opt_text(c.first_name) == crate::user_input::opt_text(update.first_name),
            crate::user_input::opt_text(c.last_name) == crate::user_input::opt_text(update.last_name),
            crate::user_input::opt_text(c.hash) == crate::user_input::opt_text(hash),
    {
        UserChange {
            username: update.username,
            first_name: update.first_name,
            last_name: update.last_name,
            email: update.email,
            email_verified: update.email_verified,
            hash,
        }
    }
}

impl UserChange {
    /// The change an account change form asks for, hashing its new
    /// password: the hash changes exactly when a password is given, and is
    /// then a hash the password is accepted against. Only a password too
    /// long to hash fails.
    pub fn from_update_hashing(update: UpdateUser) -> (r: Result<UserChange, password_hash::Error>)
        ensures
            match r {
                Ok(c) => {
                    &&& crate::user_input::opt_text(c.username) == crate::user_input::opt_text(update.username)
                    &&& crate::user_input::opt_text(c.email) == crate::user_input::opt_text(update.email)
                    &&& c.email_verified == update.email_verified
                    &&& crate::user_input::opt_text(c.first_name) == crate::user_input::opt_text(update.first_name)
                    &&& crate::user_input::opt_text(c.last_name) == crate::user_input::opt_text(update.last_name)
                    &&& (c.hash is Some <==> update.password is Some)
                    &&& (update.password matches Some(p) ==> (c.hash matches Some(h)
                        && crate::passwords::hashes(h@, encode_utf8(p@))))
                },
                Err(_) => update.password matches Some(p) && encode_utf8(p@).len()
                    > crate::passwords::MAX_PASSWORD_BYTES,
            },
    {
        let hash = match &update.password {
            Some(p) => match crate::passwords::hash_password(p.as_str()) {
                Ok(h) => Some(h),
                Err(e) => {
                    return Err(e);
                },
            },
            None => None,
        };
        let c = UserChange::from_update(update, hash);
        Ok(c)
    }
}

/// The start of the refusal of a caller without the required role.
pub const WRONG_ROLE_PREFIX: &'static str = "user role is not: ";

/// Lets through only accounts holding one role.
pub struct RoleGuard {
    pub role: Role,
}

impl RoleGuard {
    pub fn new(role: Role) -> (g: RoleGuard)
        ensures
            g.role == role,
    {
        RoleGuard { role }
    }

    /// Whether an account with stored role identifier `user_role_id`
    /// passes: only the guarded role does; others are told which role is
    /// required.
    pub fn check(&self, user_role_id: i32) -> (r: Result<(), String>)
        ensures
            match r {
                Ok(()) => account_role_of_id(user_role_id) == self.role,
                Err(m) => account_role_of_id(user_role_id) != self.role && m@ == WRONG_ROLE_PREFIX@
                    + account_role_name(self.role),
            },
    {
        if Role::from_i32(user_role_id) == self.role {
            Ok(())
        } else {
            let mut m = WRONG_ROLE_PREFIX.to_string();
            let name = self.role.to_string();
            m.append(name.as_str());
            Err(m)
        }
    }
}

/// The messages a refused sign-in is answered with, one picked at
/// random each time.
pub open spec fn refusal_messages() -> Seq<Seq<char>> {
    seq![
        "Invalid credentials. Please try again."@,
        "Login failed. Please check your email and password."@,
        "Nope, that's not it. Try again."@,
        "Access Denied!"@,
        "Hmmm...did you mistype something?"@,
    ]
}

/// `rand::Rng::gen_range` on the thread's generator: a number below
/// `n`, at random.
#[verifier::external_body]
fn random_below(n: usize) -> (r: usize)
    requires
        n > 0,
    ensures
        r < n,
{
    rand::Rng::gen_range(&mut rand::thread_rng(), 0, n)
}

/// One of the refusal messages, picked at random.
pub fn get_random_message() -> (m: String)
    ensures
        refusal_messages().contains(m@),
{
    let i = random_below(5);
    let m = if i == 0 {
        "Invalid credentials. Please try again.".to_string()
    } else if i == 1 {
        "Login failed. Please check your email and password.".to_string()
    } else if i == 2 {
        "Nope, that's not it. Try again.".to_string()
    } else if i == 3 {
        "Access Denied!".to_string()
    } else {
        "Hmmm...did you mistype something?".to_string()
    };
    proof {
        let ms = refusal_messages();
        if i == 0 {
            assert(ms[0] == m@);
        } else if i == 1 {
            assert(ms[1] == m@);
        } else if i == 2 {
            assert(ms[2] == m@);
        } else if i == 3 {
            assert(ms[3] == m@);
        } else {
            assert(ms[4] == m@);
        }
    }
    m
}

/// The refusal of a sign-in whose address is not verified yet.
pub const EMAIL_NOT_VERIFIED_MESSAGE: &'static str = "email not verified";

/// What becomes of a sign-in once the stored account has been looked up
/// and its password checked.
pub enum SigninStep {
    /// The sign-in is refused with this error.
    Refuse(ApiError),
    /// The account is signed in as stored.
    Accept,
    /// The account is signed in after its password hash is renewed.
    Rehash,
}

/// The kinds of decision a sign-in comes to.
pub enum SigninDecision {
    RefuseAtRandom,
    InternalError,
    Unverified,
    Renew,
    Admit,
}

/// The decision a sign-in comes to, from what was found: `found`, whether
/// an account has the address; `hash_readable`, whether its stored hash
/// could be read; `password_matches`; `email_verified`; and whether the
/// hash is of an outdated scheme.
pub open spec fn signin_decision(
    found: bool,
    hash_readable: bool,
    password_matches: bool,
    email_verified: bool,
    outdated: bool,
) -> SigninDecision {
    if !found {
        SigninDecision::RefuseAtRandom
    } else if !hash_readable {
        SigninDecision::InternalError
    } else if !password_matches {
        SigninDecision::RefuseAtRandom
    } else if !email_verified {
        SigninDecision::Unverified
    } else if outdated {
        SigninDecision::Renew
    } else {
        SigninDecision::Admit
    }
}

/// A sign-in is admitted, or its hash renewed, only for an account that
/// exists, whose hash was read, whose password matches and whose address
/// is verified; a matching password on an unverified address is refused
/// as unverified whatever the hash scheme; only an outdated hash is
/// renewed.
pub proof fn lemma_signin_needs_verified_address(
    found: bool,
    hash_readable: bool,
    password_matches: bool,
    email_verified: bool,
    outdated: bool,
)
    ensures
        ({
            let d = signin_decision(found, hash_readable, password_matches, email_verified, outdated);
            &&& (d is Admit || d is Renew) ==> found && hash_readable && password_matches && email_verified
            &&& found && hash_readable && password_matches && !email_verified ==> d is Unverified
            &&& d is Renew ==> outdated
            &&& d is Admit ==> !outdated
            &&& (!found || !password_matches) && hash_readable ==> d is RefuseAtRandom
        }),
{
}

/// Whether a step carries out a decision.
pub open spec fn carries_out(s: SigninStep, d: SigninDecision) -> bool {
    match d {
        SigninDecision::RefuseAtRandom => s matches SigninStep::Refuse(ApiError::Unauthorized(m))
            && refusal_messages().contains(m@),
        SigninDecision::InternalError => s matches SigninStep::Refuse(ApiError::InternalServerError),
        SigninDecision::Unverified => s matches SigninStep::Refuse(ApiError::Unauthorized(m))
            && m@ == EMAIL_NOT_VERIFIED_MESSAGE@,
        SigninDecision::Renew => s is Rehash,
        SigninDecision::Admit => s is Accept,
    }
}

/// Decides a sign-in. An unknown address or a wrong password is refused
/// with a random message; an unreadable stored hash is an internal
/// error; an unverified address is refused as such; a match on an
/// outdated scheme has its hash renewed.
pub fn signin_step(
    found: bool,
    hash_readable: bool,
    password_matches: bool,
    email_verified: bool,
    outdated: bool,
) -> (s: SigninStep)
    ensures
        carries_out(s, signin_decision(found, hash_readable, password_matches, email_verified, outdated)),
        (s is Accept || s is Rehash) ==> found && hash_readable && password_matches && email_verified,
        s is Accept ==> !outdated,
        s is Rehash ==> outdated,
        found && hash_readable && password_matches && !email_verified ==> (s matches SigninStep::Refuse(
            ApiError::Unauthorized(m),
        ) && m@ == EMAIL_NOT_VERIFIED_MESSAGE@),
{
    if !found {
        SigninStep::Refuse(ApiError::Unauthorized(get_random_message()))
    } else if !hash_readable {
        SigninStep::Refuse(ApiError::InternalServerError)
    } else if !password_matches {
        SigninStep::Refuse(ApiError::Unauthorized(get_random_message()))
    } else if !email_verified {
        SigninStep::Refuse(ApiError::Unauthorized(EMAIL_NOT_VERIFIED_MESSAGE.to_string()))
    } else if outdated {
        SigninStep::Rehash
    } else {
        SigninStep::Accept
    }
}

} // verus!

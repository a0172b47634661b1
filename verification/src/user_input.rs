//! The account forms a client submits and the checks they pass before
//! anything is stored: lengths in characters, address syntax, password
//! strength, role names, and whether a name or address is already known.
use vstd::prelude::*;
use crate::text::{is_alphanumeric_char, is_lower_case, is_numeric_char, is_upper_case};
use crate::validation::{FieldError, FieldErrors, errors_view};

verus! {

/// A check's outcome as text: its code and its message, if any.
pub type CheckView = (Seq<char>, Option<Seq<char>>);

/// Whether `s` is an e-mail address as `validator::validate_email`
/// decides it.
pub uninterp spec fn email_syntax_ok(s: Seq<char>) -> bool;

/// `validator::validate_email`: whether the text is an e-mail address.
/// Its rules (a user part, an `@`, a domain or an address literal) are
/// only named.
#[verifier::external_body]
pub(crate) fn email_is_valid(s: &str) -> (r: bool)
    ensures
        r == email_syntax_ok(s@),
{
    validator::validate_email(s)
}

/// The check that a new user name is free: it fails when an account with
/// the trimmed name was found.
pub fn validate_unique_username(found: bool) -> (r: Result<(), FieldError>)
    ensures
        match r {
            Ok(()) => !found,
            Err(e) => found && e.code@ == "invalid_username"@ && e.message is None,
        },
{
    if found {
        Err(FieldError { code: "invalid_username".to_string(), message: None })
    } else {
        Ok(())
    }
}

/// The check that a new address is free: it fails when an account with
/// the trimmed address was found.
pub fn validate_unique_email(found: bool) -> (r: Result<(), FieldError>)
    ensures
        match r {
            Ok(()) => !found,
            Err(e) => found && e.code@ == "invalid_email"@ && e.message is None,
        },
{
    if found {
        Err(FieldError { code: "invalid_email".to_string(), message: None })
    } else {
        Ok(())
    }
}

/// The check that an address belongs to an account: it fails when none
/// with the trimmed address was found.
pub fn validate_email_exists(found: bool) -> (r: Result<(), FieldError>)
    ensures
        match r {
            Ok(()) => found,
            Err(e) => !found && e.code@ == "invalid_email"@ && e.message is None,
        },
{
    if found {
        Ok(())
    } else {
        Err(FieldError { code: "invalid_email".to_string(), message: None })
    }
}

/// The check that a name belongs to an account: it fails when none with
/// the trimmed name was found.
pub fn validate_username_exists(found: bool) -> (r: Result<(), FieldError>)
    ensures
        match r {
            Ok(()) => found,
            Err(e) => !found && e.code@ == "invalid_username"@ && e.message is None,
        },
{
    if found {
        Ok(())
    } else {
        Err(FieldError { code: "invalid_username".to_string(), message: None })
    }
}

/// The one-element list holding a failed check, or the empty list.
pub open spec fn check(failed: bool, code: Seq<char>, message: Option<Seq<char>>) -> Seq<CheckView> {
    if failed {
        seq![(code, message)]
    } else {
        Seq::empty()
    }
}

/// The report entry of a field, if any check on it failed.
pub open spec fn entry(field: Seq<char>, errs: Seq<CheckView>) -> Seq<(Seq<char>, Seq<CheckView>)> {
    if errs.len() > 0 {
        seq![(field, errs)]
    } else {
        Seq::empty()
    }
}

/// A report as text.
pub open spec fn report_view(r: Seq<FieldErrors>) -> Seq<(Seq<char>, Seq<CheckView>)> {
    r.map_values(|f: FieldErrors| (f.field@, errors_view(f.errors@)))
}

/// Whether a password has an uppercase letter, a lowercase letter, a
/// numeric character and a character that is neither letter nor digit.
pub open spec fn strong_password(p: Seq<char>) -> bool {
    &&& exists|i: int| 0 <= i < p.len() && is_upper_case(#[trigger] p[i])
    &&& exists|i: int| 0 <= i < p.len() && is_lower_case(#[trigger] p[i])
    &&& exists|i: int| 0 <= i < p.len() && is_numeric_char(#[trigger] p[i])
    &&& exists|i: int| 0 <= i < p.len() && !is_alphanumeric_char(#[trigger] p[i])
}

/// Checks password strength, as the sign-up form's custom check does.
pub fn validate_password(password: &str) -> (r: Result<(), FieldError>)
    ensures
        match r {
            Ok(()) => strong_password(password@),
            Err(e) => !strong_password(password@) && e.code@ == "invalid_password"@ && e.message is None,
        },
{
    let cs = crate::text::chars_of(password);
    let mut upper = false;
    let mut lower = false;
    let mut numeric = false;
    let mut other = false;
    let mut i: usize = 0;
    while i < cs.len()
        invariant
            cs@ == password@,
            i <= cs@.len(),
            upper <==> exists|j: int| 0 <= j < i && is_upper_case(#[trigger] cs@[j]),
            lower <==> exists|j: int| 0 <= j < i && is_lower_case(#[trigger] cs@[j]),
            numeric <==> exists|j: int| 0 <= j < i && is_numeric_char(#[trigger] cs@[j]),
            other <==> exists|j: int| 0 <= j < i && !is_alphanumeric_char(#[trigger] cs@[j]),
        decreases cs.len() - i,
    {
        let c = cs[i];
        if crate::text::char_is_uppercase(c) {
            upper = true;
        }
        if crate::text::char_is_lowercase(c) {
            lower = true;
        }
        if crate::text::char_is_numeric(c) {
            numeric = true;
        }
        if !crate::text::char_is_alphanumeric(c) {
            other = true;
        }
        i = i + 1;
    }
    if upper && lower && numeric && other {
        Ok(())
    } else {
        Err(FieldError { code: "invalid_password".to_string(), message: None })
    }
}

/// The number of characters of `s`, which is what length checks count.
pub(crate) fn char_count(s: &str) -> (n: usize)
    ensures
        n == s@.len(),
{
    crate::text::chars_of(s).len()
}

pub(crate) fn add_check(errs: &mut Vec<FieldError>, failed: bool, code: &str, message: Option<&str>)
    ensures
        errors_view(final(errs)@) == errors_view(old(errs)@) + check(
            failed,
            code@,
            match message {
                Some(m) => Some(m@),
                None => None,
            },
        ),
{
    if failed {
        let m = match message {
            Some(m) => Some(m.to_string()),
            None => None,
        };
        errs.push(FieldError { code: code.to_string(), message: m });
    }
    proof {
        assert(errors_view(final(errs)@) =~= errors_view(old(errs)@) + check(
            failed,
            code@,
            match message {
                Some(m) => Some(m@),
                None => None,
            },
        ));
    }
}

pub(crate) fn add_entry(report: &mut Vec<FieldErrors>, field: &str, errs: Vec<FieldError>)
    ensures
        report_view(final(report)@) == report_view(old(report)@) + entry(field@, errors_view(errs@)),
{
    let ghost ev = errors_view(errs@);
    if errs.len() > 0 {
        report.push(FieldErrors { field: field.to_string(), errors: errs });
    }
    proof {
        assert(report_view(final(report)@) =~= report_view(old(report)@) + entry(field@, ev));
    }
}

/// The sign-up form.
pub struct RegisterUser {
    pub username: String,
    pub email: String,
    pub password: String,
    pub first_name: String,
    pub last_name: String,
}

/// The failed checks of a sign-up form, field by field in declaration
/// order; `username_taken` and `email_taken` tell whether an account with
/// the trimmed name or address exists.
pub open spec fn register_report(
    username: Seq<char>,
    email: Seq<char>,
    password: Seq<char>,
    first_name: Seq<char>,
    last_name: Seq<char>,
    username_taken: bool,
    email_taken: bool,
) -> Seq<(Seq<char>, Seq<CheckView>)> {
    entry(
        "username"@,
        check(username.len() < 3, "length"@, Some("must be at least 3 characters"@)) + check(
            username_taken,
            "invalid_username"@,
            Some("username already taken"@),
        ),
    ) + entry(
        "email"@,
        check(!email_syntax_ok(email), "email"@, Some("not a valid email address"@)) + check(
            email_taken,
            "invalid_email"@,
            Some("email already registered"@),
        ),
    ) + entry(
        "password"@,
        check(
            password.len() < 8 || password.len() > 72,
            "length"@,
            Some("must be 8-72 characters"@),
        ) + check(!strong_password(password), "invalid_password"@, Some(WEAK_PASSWORD_MESSAGE@)),
    ) + entry("first_name"@, check(first_name.len() < 1, "length"@, Some("cannot be empty"@)))
        + entry("last_name"@, check(last_name.len() < 1, "length"@, Some("cannot be empty"@)))
}

/// A sign-up form is accepted, its report empty, exactly when every
/// check passes.
pub proof fn lemma_register_report_empty(
    username: Seq<char>,
    email: Seq<char>,
    password: Seq<char>,
    first_name: Seq<char>,
    last_name: Seq<char>,
    username_taken: bool,
    email_taken: bool,
)
    ensures
        register_report(username, email, password, first_name, last_name, username_taken, email_taken).len()
            == 0 <==> {
            &&& username.len() >= 3
            &&& !username_taken
            &&& email_syntax_ok(email)
            &&& !email_taken
            &&& 8 <= password.len() <= 72
            &&& strong_password(password)
            &&& first_name.len() >= 1
            &&& last_name.len() >= 1
        },
{
}

/// The message of a password that is too weak.
pub const WEAK_PASSWORD_MESSAGE: &'static str = "password must contain at least one uppercase letter, one lowercase letter, one number, one special character, and be at least 8 characters long";

impl RegisterUser {
    /// Checks the form; the report is empty when every check passes.
    pub fn validate(&self, username_taken: bool, email_taken: bool) -> (r: Vec<FieldErrors>)
        ensures
            report_view(r@) == register_report(
                self.username@,
                self.email@,
                self.password@,
                self.first_name@,
                self.last_name@,
                username_taken,
                email_taken,
            ),
            r@.len() == 0 <==> {
                &&& self.username@.len() >= 3
                &&& !username_taken
                &&& email_syntax_ok(self.email@)
                &&& !email_taken
                &&& 8 <= self.password@.len() <= 72
                &&& strong_password(self.password@)
                &&& self.first_name@.len() >= 1
                &&& self.last_name@.len() >= 1
            },
    {
        let mut report: Vec<FieldErrors> = Vec::new();
        let mut u: Vec<FieldError> = Vec::new();
        add_check(&mut u, char_count(self.username.as_str()) < 3, "length", Some("must be at least 3 characters"));
        add_check(&mut u, username_taken, "invalid_username", Some("username already taken"));
        add_entry(&mut report, "username", u);
        let mut e: Vec<FieldError> = Vec::new();
        add_check(&mut e, !email_is_valid(self.email.as_str()), "email", Some("not a valid email address"));
        add_check(&mut e, email_taken, "invalid_email", Some("email already registered"));
        add_entry(&mut report, "email", e);
        let mut p: Vec<FieldError> = Vec::new();
        let n = char_count(self.password.as_str());
        add_check(&mut p, n < 8 || n > 72, "length", Some("must be 8-72 characters"));
        let strong = validate_password(self.password.as_str()).is_ok();
        add_check(&mut p, !strong, "invalid_password", Some(WEAK_PASSWORD_MESSAGE));
        add_entry(&mut report, "password", p);
        let mut f: Vec<FieldError> = Vec::new();
        add_check(&mut f, char_count(self.first_name.as_str()) < 1, "length", Some("cannot be empty"));
        add_entry(&mut report, "first_name", f);
        let mut l: Vec<FieldError> = Vec::new();
        add_check(&mut l, char_count(self.last_name.as_str()) < 1, "length", Some("cannot be empty"));
        add_entry(&mut report, "last_name", l);
        proof {
            assert(report_view(report@) =~= register_report(
                self.username@,
                self.email@,
                self.password@,
                self.first_name@,
                self.last_name@,
                username_taken,
                email_taken,
            ));
            lemma_register_report_empty(
                self.username@,
                self.email@,
                self.password@,
                self.first_name@,
                self.last_name@,
                username_taken,
                email_taken,
            );
        }
        report
    }
}

/// The sign-in form.
pub struct LoginUser {
    pub email: String,
    pub password: String,
}

/// The failed checks of a sign-in form.
pub open spec fn login_report(email: Seq<char>) -> Seq<(Seq<char>, Seq<CheckView>)> {
    entry("email"@, check(!email_syntax_ok(email), "email"@, Some("not a valid email address"@)))
}

/// A sign-in form is accepted exactly when its address is well formed.
pub proof fn lemma_login_report_empty(email: Seq<char>)
    ensures
        login_report(email).len() == 0 <==> email_syntax_ok(email),
{
}

impl LoginUser {
    /// Checks the form; the report is empty when every check passes.
    pub fn validate(&self) -> (r: Vec<FieldErrors>)
        ensures
            report_view(r@) == login_report(self.email@),
            r@.len() == 0 <==> email_syntax_ok(self.email@),
    {
        let mut report: Vec<FieldErrors> = Vec::new();
        let mut e: Vec<FieldError> = Vec::new();
        add_check(&mut e, !email_is_valid(self.email.as_str()), "email", Some("not a valid email address"));
        add_entry(&mut report, "email", e);
        proof {
            assert(report_view(report@) =~= login_report(self.email@));
            lemma_login_report_empty(self.email@);
        }
        report
    }
}

/// A lookup of an account by name.
pub struct FindUser {
    pub username: String,
}

/// A lookup of an account by e-mail address.
pub struct FindEmail {
    pub email: String,
}

/// The form asking for a password reset.
pub struct ForgotPassword {
    pub email: String,
}

/// The failed checks of a password reset form; `email_known` tells
/// whether an account with the trimmed address exists.
pub open spec fn forgot_report(email: Seq<char>, email_known: bool) -> Seq<(Seq<char>, Seq<CheckView>)> {
    entry(
        "email"@,
        check(!email_syntax_ok(email), "email"@, Some("not a valid email address"@)) + check(
            !email_known,
            "invalid_email"@,
            Some("no account matches this email address"@),
        ),
    )
}

/// A password reset form is accepted exactly when its address is well
/// formed and belongs to an account.
pub proof fn lemma_forgot_report_empty(email: Seq<char>, email_known: bool)
    ensures
        forgot_report(email, email_known).len() == 0 <==> email_syntax_ok(email) && email_known,
{
}

impl ForgotPassword {
    /// Checks the form; the report is empty when every check passes.
    pub fn validate(&self, email_known: bool) -> (r: Vec<FieldErrors>)
        ensures
            report_view(r@) == forgot_report(self.email@, email_known),
            r@.len() == 0 <==> email_syntax_ok(self.email@) && email_known,
    {
        let mut report: Vec<FieldErrors> = Vec::new();
        let mut e: Vec<FieldError> = Vec::new();
        add_check(&mut e, !email_is_valid(self.email.as_str()), "email", Some("not a valid email address"));
        add_check(&mut e, !email_known, "invalid_email", Some("no account matches this email address"));
        add_entry(&mut report, "email", e);
        proof {
            assert(report_view(report@) =~= forgot_report(self.email@, email_known));
            lemma_forgot_report_empty(self.email@, email_known);
        }
        report
    }
}

/// The form changing an account; absent fields stay as they are.
pub struct UpdateUser {
    pub username: Option<String>,
    pub email: Option<String>,
    pub email_verified: Option<bool>,
    pub password: Option<String>,
    pub first_name: Option<String>,
    pub last_name: Option<String>,
}

/// The text of an optional field.
pub open spec fn opt_text(o: Option<String>) -> Option<Seq<char>> {
    match o {
        Some(s) => Some(s@),
        None => None,
    }
}

/// The failed checks of an account change form: only the fields given
/// are checked; `username_taken` tells whether an account with the
/// trimmed new name exists.
pub open spec fn update_report(
    username: Option<Seq<char>>,
    email: Option<Seq<char>>,
    password: Option<Seq<char>>,
    first_name: Option<Seq<char>>,
    last_name: Option<Seq<char>>,
    username_taken: bool,
) -> Seq<(Seq<char>, Seq<CheckView>)> {
    entry(
        "username"@,
        match username {
            Some(u) => check(u.len() < 3, "length"@, Some("must be at least 3 characters long"@))
                + check(username_taken, "invalid_username"@, Some("username already taken"@)),
            None => Seq::empty(),
        },
    ) + entry(
        "email"@,
        match email {
            Some(e) => check(!email_syntax_ok(e), "email"@, None),
            None => Seq::empty(),
        },
    ) + entry(
        "password"@,
        match password {
            Some(p) => check(p.len() < 8 || p.len() > 72, "length"@, Some("must be 8-72 characters long"@)),
            None => Seq::empty(),
        },
    ) + entry(
        "first_name"@,
        match first_name {
            Some(f) => check(f.len() < 1, "length"@, Some("cannot be empty"@)),
            None => Seq::empty(),
        },
    ) + entry(
        "last_name"@,
        match last_name {
            Some(l) => check(l.len() < 1, "length"@, Some("cannot be empty"@)),
            None => Seq::empty(),
        },
    )
}

/// An account change form is accepted, its report empty, exactly when
/// every given field passes: a new name of at least three characters
/// that no other account has, a well-formed address, a password of 8 to
/// 72 characters, and names that are not empty.
pub proof fn lemma_update_report_empty(
    username: Option<Seq<char>>,
    email: Option<Seq<char>>,
    password: Option<Seq<char>>,
    first_name: Option<Seq<char>>,
    last_name: Option<Seq<char>>,
    username_taken: bool,
)
    ensures
        update_report(username, email, password, first_name, last_name, username_taken).len() == 0 <==> {
            &&& username matches Some(u) ==> u.len() >= 3 && !username_taken
            &&& email matches Some(e) ==> email_syntax_ok(e)
            &&& password matches Some(p) ==> 8 <= p.len() <= 72
            &&& first_name matches Some(f) ==> f.len() >= 1
            &&& last_name matches Some(l) ==> l.len() >= 1
        },
        username is Some && username_taken ==> update_report(
            username,
            email,
            password,
            first_name,
            last_name,
            username_taken,
        ).len() > 0,
{
}

impl UpdateUser {
    /// Checks the form; the report is empty when every check passes.
    pub fn validate(&self, username_taken: bool) -> (r: Vec<FieldErrors>)
        ensures
            report_view(r@) == update_report(
                opt_text(self.username),
                opt_text(self.email),
                opt_text(self.password),
                opt_text(self.first_name),
                opt_text(self.last_name),
                username_taken,
            ),
            r@.len() == 0 <==> {
                &&& self.username matches Some(u) ==> u@.len() >= 3 && !username_taken
                &&& self.email matches Some(e) ==> email_syntax_ok(e@)
                &&& self.password matches Some(p) ==> 8 <= p@.len() <= 72
                &&& self.first_name matches Some(f) ==> f@.len() >= 1
                &&& self.last_name matches Some(l) ==> l@.len() >= 1
            },
    {
        let mut report: Vec<FieldErrors> = Vec::new();
        let mut u: Vec<FieldError> = Vec::new();
        match &self.username {
            Some(name) => {
                add_check(&mut u, char_count(name.as_str()) < 3, "length", Some("must be at least 3 characters long"));
                add_check(&mut u, username_taken, "invalid_username", Some("username already taken"));
            },
            None => {},
        }
        add_entry(&mut report, "username", u);
        let mut e: Vec<FieldError> = Vec::new();
        match &self.email {
            Some(addr) => {
                add_check(&mut e, !email_is_valid(addr.as_str()), "email", None);
            },
            None => {},
        }
        add_entry(&mut report, "email", e);
        let mut p: Vec<FieldError> = Vec::new();
        match &self.password {
            Some(pw) => {
                let n = char_count(pw.as_str());
                add_check(&mut p, n < 8 || n > 72, "length", Some("must be 8-72 characters long"));
            },
            None => {},
        }
        add_entry(&mut report, "password", p);
        let mut f: Vec<FieldError> = Vec::new();
        match &self.first_name {
            Some(v) => {
                add_check(&mut f, char_count(v.as_str()) < 1, "length", Some("cannot be empty"));
            },
            None => {},
        }
        add_entry(&mut report, "first_name", f);
        let mut l: Vec<FieldError> = Vec::new();
        match &self.last_name {
            Some(v) => {
                add_check(&mut l, char_count(v.as_str()) < 1, "length", Some("cannot be empty"));
            },
            None => {},
        }
        add_entry(&mut report, "last_name", l);
        proof {
            assert(report_view(report@) =~= update_report(
                opt_text(self.username),
                opt_text(self.email),
                opt_text(self.password),
                opt_text(self.first_name),
                opt_text(self.last_name),
                username_taken,
            ));
            lemma_update_report_empty(
                opt_text(self.username),
                opt_text(self.email),
                opt_text(self.password),
                opt_text(self.first_name),
                opt_text(self.last_name),
                username_taken,
            );
        }
        report
    }
}

} // verus!

use vstd::prelude::*;
use vstd::string::StringExecFns;

verus! {

/// A failed check on one input field: a code naming the check and, when
/// the field declares one, the message shown to the user.
pub struct FieldError {
    pub code: String,
    pub message: Option<String>,
}

/// The failed checks of one input field.
pub struct FieldErrors {
    pub field: String,
    pub errors: Vec<FieldError>,
}

/// One entry of a validation report: the joined messages of a field.
pub struct ValidationError {
    pub message: String,
    pub key: String,
}

/// The JSON body `{"error": ...}` of an error answer.
pub struct ErrorBody {
    pub error: String,
}

/// The errors a GraphQL service answers with.
pub enum ApiError {
    Unauthorized(String),
    NotFound(ErrorBody),
    UnprocessableEntity(ErrorBody),
    ValidationErrors(Vec<ValidationError>),
    InternalServerError,
}

/// A field error as text: its code and its message, if any.
pub open spec fn field_error_view(e: FieldError) -> (Seq<char>, Option<Seq<char>>) {
    (e.code@, match e.message {
        Some(m) => Some(m@),
        None => None,
    })
}

/// The messages of a list of field errors, in order, skipping the errors
/// that have none.
pub open spec fn messages_of(errs: Seq<(Seq<char>, Option<Seq<char>>)>) -> Seq<Seq<char>>
    decreases errs.len(),
{
    if errs.len() == 0 {
        Seq::empty()
    } else {
        messages_of(errs.drop_last()) + match errs.last().1 {
            Some(m) => seq![m],
            None => Seq::empty(),
        }
    }
}

/// The parts joined with `sep` between each two.
pub open spec fn join(parts: Seq<Seq<char>>, sep: Seq<char>) -> Seq<char>
    decreases parts.len(),
{
    if parts.len() == 0 {
        Seq::empty()
    } else if parts.len() == 1 {
        parts[0]
    } else {
        join(parts.drop_last(), sep) + sep + parts.last()
    }
}

/// The field errors of a field, as text.
pub open spec fn errors_view(errs: Seq<FieldError>) -> Seq<(Seq<char>, Option<Seq<char>>)> {
    errs.map_values(|e: FieldError| field_error_view(e))
}

/// The report entry for the failed checks of one field: their messages
/// joined with `, `, under the field's name.
pub open spec fn report_entry(f: FieldErrors) -> (Seq<char>, Seq<char>) {
    (join(messages_of(errors_view(f.errors@)), ", "@), f.field@)
}

/// The joined messages of a field's failed checks.
pub fn joined_messages(errs: &Vec<FieldError>) -> (s: String)
    ensures
        s@ == join(messages_of(errors_view(errs@)), ", "@),
{
    proof {
        reveal_strlit(", ");
    }
    let ghost ev = errors_view(errs@);
    let mut s = String::new();
    let mut count: usize = 0;
    let mut i: usize = 0;
    proof {
        assert(ev.take(0) =~= Seq::<(Seq<char>, Option<Seq<char>>)>::empty());
    }
    while i < errs.len()
        invariant
            ev == errors_view(errs@),
            i <= errs@.len(),
            count <= i,
            count == messages_of(ev.take(i as int)).len(),
            s@ == join(messages_of(ev.take(i as int)), ", "@),
        decreases errs.len() - i,
    {
        let ghost before = messages_of(ev.take(i as int));
        proof {
            assert(ev.take(i + 1).drop_last() =~= ev.take(i as int));
            assert(ev.take(i + 1).last() == field_error_view(errs@[i as int]));
        }
        match &errs[i].message {
            Some(m) => {
                if count > 0 {
                    s.append(", ");
                }
                s.append(m.as_str());
                proof {
                    let after = messages_of(ev.take(i + 1));
                    assert(after == before + seq![m@]);
                    assert(after.drop_last() =~= before);
                    if count == 0 {
                        assert(after.len() == 1);
                    }
                }
                count = count + 1;
            },
            None => {
                proof {
                    assert(messages_of(ev.take(i + 1)) =~= before);
                }
            },
        }
        i = i + 1;
    }
    proof {
        assert(ev.take(errs@.len() as int) =~= ev);
    }
    s
}

/// Turns the failed checks of an input into a validation report: one
/// entry per field, in the given order.
pub fn validation_errors_to_error(errors: &Vec<FieldErrors>) -> (e: ApiError)
    ensures
        e matches ApiError::ValidationErrors(v) && v@.len() == errors@.len() && forall|i: int|
            0 <= i < errors@.len() ==> (#[trigger] v@[i]).message@ == report_entry(errors@[i]).0
                && v@[i].key@ == report_entry(errors@[i]).1,
{
    let mut errs: Vec<ValidationError> = Vec::new();
    let mut i: usize = 0;
    while i < errors.len()
        invariant
            i <= errors@.len(),
            errs@.len() == i,
            forall|j: int|
                0 <= j < i ==> (#[trigger] errs@[j]).message@ == report_entry(errors@[j]).0
                    && errs@[j].key@ == report_entry(errors@[j]).1,
        decreases errors.len() - i,
    {
        let message = joined_messages(&errors[i].errors);
        let key = errors[i].field.clone();
        errs.push(ValidationError { message, key });
        i = i + 1;
    }
    ApiError::ValidationErrors(errs)
}

/// The outcome of checking a form: a form with no failed check goes on;
/// otherwise the answer is its validation report.
pub fn check_report(errors: &Vec<FieldErrors>) -> (r: Result<(), ApiError>)
    ensures
        errors@.len() == 0 ==> r is Ok,
        errors@.len() > 0 ==> (r matches Err(ApiError::ValidationErrors(v)) && v@.len() == errors@.len()
            && forall|i: int|
            0 <= i < errors@.len() ==> (#[trigger] v@[i]).message@ == report_entry(errors@[i]).0
                && v@[i].key@ == report_entry(errors@[i]).1),
{
    if errors.len() == 0 {
        Ok(())
    } else {
        Err(validation_errors_to_error(errors))
    }
}

/// How a token decoder's refusal is classed when it is reported.
#[derive(PartialEq, Eq, Structural, Clone, Copy, Debug)]
pub enum JwtFailureKind {
    InvalidToken,
    InvalidIssuer,
    Other,
}

/// `jsonwebtoken::errors::Error::kind`, told apart into the kinds that
/// are reported separately. Which kind an error has is not stated.
#[verifier::external_body]
fn jwt_failure_kind(e: &jsonwebtoken::errors::Error) -> (k: JwtFailureKind) {
    match e.kind() {
        jsonwebtoken::errors::ErrorKind::InvalidToken => JwtFailureKind::InvalidToken,
        jsonwebtoken::errors::ErrorKind::InvalidIssuer => JwtFailureKind::InvalidIssuer,
        _ => JwtFailureKind::Other,
    }
}

/// The message reported for each kind of token refusal.
pub open spec fn jwt_failure_message(k: JwtFailureKind) -> Seq<char> {
    match k {
        JwtFailureKind::InvalidToken => "Token is invalid"@,
        JwtFailureKind::InvalidIssuer => "Issuer is invalid"@,
        JwtFailureKind::Other => "An issue was found with the token provided"@,
    }
}

impl ApiError {
    /// A token refusal of the given kind, reported as unauthorized.
    pub fn from_jwt_kind(kind: JwtFailureKind) -> (e: ApiError)
        ensures
            e matches ApiError::Unauthorized(m) && m@ == jwt_failure_message(kind),
    {
        match kind {
            JwtFailureKind::InvalidToken => ApiError::Unauthorized("Token is invalid".to_string()),
            JwtFailureKind::InvalidIssuer => ApiError::Unauthorized("Issuer is invalid".to_string()),
            JwtFailureKind::Other => ApiError::Unauthorized(
                "An issue was found with the token provided".to_string(),
            ),
        }
    }

    /// A token decoder's refusal, reported as unauthorized with the
    /// message of its kind.
    pub fn from_jwt_error(error: &jsonwebtoken::errors::Error) -> (e: ApiError)
        ensures
            e matches ApiError::Unauthorized(m) && (m@ == jwt_failure_message(JwtFailureKind::InvalidToken)
                || m@ == jwt_failure_message(JwtFailureKind::InvalidIssuer) || m@ == jwt_failure_message(
                JwtFailureKind::Other,
            )),
    {
        ApiError::from_jwt_kind(jwt_failure_kind(error))
    }

    /// A database failure as it is reported: a unique key violation is an
    /// unprocessable entity carrying the database's details (or, lacking
    /// them, its message); a missing record is not found; anything else is
    /// an internal error.
    pub fn from_db_failure(failure: DbFailure) -> (e: ApiError)
        ensures
            match failure {
                DbFailure::UniqueViolation { details, message } => e matches ApiError::UnprocessableEntity(b)
                    && b.error@ == (match details {
                    Some(d) => d@,
                    None => message@,
                }),
                DbFailure::NotFound => e matches ApiError::NotFound(b) && b.error@ == RECORD_NOT_FOUND_MESSAGE@,
                _ => e is InternalServerError,
            },
    {
        match failure {
            DbFailure::UniqueViolation { details, message } => {
                let text = match details {
                    Some(d) => d,
                    None => message,
                };
                ApiError::UnprocessableEntity(ErrorBody { error: text })
            },
            DbFailure::NotFound => ApiError::NotFound(
                ErrorBody { error: RECORD_NOT_FOUND_MESSAGE.to_string() },
            ),
            _ => ApiError::InternalServerError,
        }
    }

    /// What an error adds to a GraphQL answer: a validation report lists
    /// its entries; every other error carries the code `NOT_FOUND`.
    pub fn extension(&self) -> (x: ErrorExtension)
        ensures
            match self {
                ApiError::ValidationErrors(v) => x matches ErrorExtension::Errors(w) && w@.len() == v@.len()
                    && forall|i: int| 0 <= i < v@.len() ==> (#[trigger] w@[i]).message@ == v@[i].message@
                    && w@[i].key@ == v@[i].key@,
                _ => x matches ErrorExtension::Code(c) && c@ == NOT_FOUND_CODE@,
            },
    {
        match self {
            ApiError::ValidationErrors(v) => {
                let mut w: Vec<ValidationError> = Vec::new();
                let mut i: usize = 0;
                while i < v.len()
                    invariant
                        i <= v@.len(),
                        w@.len() == i,
                        forall|j: int| 0 <= j < i ==> (#[trigger] w@[j]).message@ == v@[j].message@
                            && w@[j].key@ == v@[j].key@,
                    decreases v.len() - i,
                {
                    w.push(ValidationError { message: v[i].message.clone(), key: v[i].key.clone() });
                    i = i + 1;
                }
                ErrorExtension::Errors(w)
            },
            _ => ErrorExtension::Code(NOT_FOUND_CODE.to_string()),
        }
    }
}

/// The text of a missing record's error.
pub const RECORD_NOT_FOUND_MESSAGE: &'static str = "requested record was not found";

/// The code of errors other than validation reports.
pub const NOT_FOUND_CODE: &'static str = "NOT_FOUND";

/// A failure of the database as the error reports read it.
pub enum DbFailure {
    /// A unique key was violated; the database gave a message and maybe
    /// details.
    UniqueViolation { details: Option<String>, message: String },
    /// Another database error.
    OtherDatabaseError,
    /// The record looked for does not exist.
    NotFound,
    /// A failure outside the database itself.
    Other,
}

/// What an error adds to a GraphQL answer.
pub enum ErrorExtension {
    Errors(Vec<ValidationError>),
    Code(String),
}

} // verus!

use vstd::prelude::*;
use crate::access_token::{TokenError, representable_time};
use crate::json::{json_quote, int_text, json_string_value, json_int_value, opt_chars};
use crate::jwt::{field, fields_view, object_text, member_text, signed_token};
use crate::text::{header_text, starts_with, trim};
use crate::uuid::{uuid_text, uuid_parse};

verus! {

/// Lifetime of a session token, in seconds: one week.
pub const ONE_WEEK: i64 = 604800;

/// The text of the error for a request without credentials.
pub const NO_AUTHORIZATION_HEADER_MESSAGE: &'static str = "no Authorization header";

/// Errors a service answers with.
#[derive(Debug)]
pub enum ServiceError {
    BadRequest(String),
    Unauthorized,
    InternalServerError,
}

/// A service error as a value: its kind and, for a bad request, its text.
pub enum ServiceErrorView {
    BadRequest(Seq<char>),
    Unauthorized,
    InternalServerError,
}

pub open spec fn service_error_view(e: ServiceError) -> ServiceErrorView {
    match e {
        ServiceError::BadRequest(m) => ServiceErrorView::BadRequest(m@),
        ServiceError::Unauthorized => ServiceErrorView::Unauthorized,
        ServiceError::InternalServerError => ServiceErrorView::InternalServerError,
    }
}

/// The claims a session token carries: the user id, the issue time and
/// the expiry (Unix seconds), and the user name.
pub struct Claims {
    pub sub: String,
    pub iat: i64,
    pub exp: i64,
    pub username: String,
}

/// The value of session claims as text and numbers.
pub open spec fn claims_view(c: Claims) -> (Seq<char>, int, int, Seq<char>) {
    (c.sub@, c.iat as int, c.exp as int, c.username@)
}

/// The members of a session token's payload, in the order written.
pub open spec fn session_fields(sub: Seq<char>, iat: int, exp: int, username: Seq<char>) -> Seq<(Seq<char>, Seq<char>)> {
    seq![
        ("sub"@, json_quote(sub)),
        ("iat"@, int_text(iat)),
        ("exp"@, int_text(exp)),
        ("username"@, json_quote(username)),
    ]
}

/// The JSON payload of a session token.
pub open spec fn session_json(sub: Seq<char>, iat: int, exp: int, username: Seq<char>) -> Seq<char> {
    object_text(session_fields(sub, iat, exp, username))
}

/// The session claims held by decoded payload members.
pub open spec fn session_of_fields(fields: Seq<(Seq<char>, Seq<char>)>) -> Option<(Seq<char>, int, int, Seq<char>)> {
    match (field(fields, "sub"@), field(fields, "iat"@), field(fields, "exp"@), field(fields, "username"@)) {
        (Some(s), Some(i), Some(e), Some(u)) => match (
            json_string_value(s),
            json_int_value(i),
            json_int_value(e),
            json_string_value(u),
        ) {
            (Some(sub), Some(iat), Some(exp), Some(username)) => Some((sub, iat, exp, username)),
            _ => None,
        },
        _ => None,
    }
}

/// `chrono::Utc::now().timestamp_nanos_opt()`: the current Unix time in
/// nanoseconds, when it fits in `i64`. The clock is not modelled.
#[verifier::external_body]
fn now_timestamp_nanos() -> (t: Option<i64>) {
    chrono::Utc::now().timestamp_nanos_opt()
}

fn push_member(out: &mut Vec<char>, key: &str, value: &[char])
    ensures
        final(out)@ == old(out)@ + member_text(key@, value@),
{
    let k = crate::text::chars_of(key);
    crate::json::push_quoted(out, k.as_slice());
    out.push(':');
    crate::text::push_range(out, value, 0, value.len());
    proof {
        assert(value@.subrange(0, value@.len() as int) =~= value@);
        assert(final(out)@ =~= old(out)@ + member_text(key@, value@));
    }
}

/// The JSON payload of session claims.
pub fn session_payload(claims: &Claims) -> (p: Vec<char>)
    ensures
        p@ == session_json(claims.sub@, claims.iat as int, claims.exp as int, claims.username@),
{
    let mut sub: Vec<char> = Vec::new();
    crate::json::push_quoted(&mut sub, crate::text::chars_of(claims.sub.as_str()).as_slice());
    let mut iat: Vec<char> = Vec::new();
    crate::json::push_int(&mut iat, claims.iat);
    let mut exp: Vec<char> = Vec::new();
    crate::json::push_int(&mut exp, claims.exp);
    let mut user: Vec<char> = Vec::new();
    crate::json::push_quoted(&mut user, crate::text::chars_of(claims.username.as_str()).as_slice());
    let mut p: Vec<char> = Vec::new();
    p.push('{');
    push_member(&mut p, "sub", sub.as_slice());
    p.push(',');
    push_member(&mut p, "iat", iat.as_slice());
    p.push(',');
    push_member(&mut p, "exp", exp.as_slice());
    p.push(',');
    push_member(&mut p, "username", user.as_slice());
    p.push('}');
    proof {
        let f = session_fields(claims.sub@, claims.iat as int, claims.exp as int, claims.username@);
        assert(sub@ =~= json_quote(claims.sub@));
        assert(iat@ =~= int_text(claims.iat as int));
        assert(exp@ =~= int_text(claims.exp as int));
        assert(user@ =~= json_quote(claims.username@));
        let d1 = f.drop_first();
        let d2 = d1.drop_first();
        let d3 = d2.drop_first();
        assert(d3 =~= seq![f[3]]);
        assert(d2 =~= seq![f[2], f[3]]);
        assert(d1 =~= seq![f[1], f[2], f[3]]);
        assert(crate::jwt::members_text(d3) == member_text(f[3].0, f[3].1));
        assert(crate::jwt::members_text(d2) == member_text(f[2].0, f[2].1) + seq![','] + crate::jwt::members_text(d3));
        assert(crate::jwt::members_text(d1) == member_text(f[1].0, f[1].1) + seq![','] + crate::jwt::members_text(d2));
        assert(crate::jwt::members_text(f) == member_text(f[0].0, f[0].1) + seq![','] + crate::jwt::members_text(d1));
        assert(p@ =~= session_json(claims.sub@, claims.iat as int, claims.exp as int, claims.username@));
    }
    p
}

/// The session token of the user with id `user_id` and name `username`,
/// issued at Unix time `now` and valid for one week; a signing failure is
/// an internal error.
pub fn create_jwt_at(user_id: u128, username: String, now: i64, secret: &[u8]) -> (r: Result<String, ServiceError>)
    requires
        representable_time(now as int),
    ensures
        r matches Ok(t) && t@ == signed_token(session_json(uuid_text(user_id), now as int, now + ONE_WEEK, username@), secret@),
{
    let sub = crate::uuid::uuid_string(user_id);
    let claims = Claims {
        sub: crate::text::string_from(sub.as_slice()),
        iat: now,
        exp: now + ONE_WEEK,
        username,
    };
    let p = session_payload(&claims);
    match crate::jwt::sign_payload(p.as_slice(), secret) {
        Ok(t) => Ok(t),
        Err(_) => Err(ServiceError::InternalServerError),
    }
}

/// The session token of the user with id `user_id` and name `username`,
/// issued now (whole seconds of the current time) and valid for one
/// week, the current time being read in nanoseconds. A clock beyond the
/// nanosecond range of `i64` (before 1677 or after 2262) is an internal
/// error, the only error there is; the clock itself is not modelled.
pub fn create_jwt(user_id: u128, username: String, secret: &[u8]) -> (r: Result<String, ServiceError>)
    ensures
        r matches Ok(t) ==> exists|now: int|
            -9_223_372_036 <= now <= 9_223_372_036 && t@ == #[trigger] signed_token(
                session_json(uuid_text(user_id), now, now + ONE_WEEK, username@),
                secret@,
            ),
        r is Err ==> r matches Err(ServiceError::InternalServerError),
{
    match now_timestamp_nanos() {
        None => Err(ServiceError::InternalServerError),
        Some(nanos) => {
            let now = nanos / 1_000_000_000;
            create_jwt_at(user_id, username, now, secret)
        },
    }
}

/// The session claims held by decoded payload members, if well formed.
pub fn session_from_fields(fields: &Vec<(String, String)>) -> (r: Option<Claims>)
    ensures
        match r {
            Some(c) => session_of_fields(fields_view(fields@)) == Some(claims_view(c)),
            None => session_of_fields(fields_view(fields@)) is None,
        },
{
    let sub = crate::jwt::find_field(fields, "sub");
    let iat = crate::jwt::find_field(fields, "iat");
    let exp = crate::jwt::find_field(fields, "exp");
    let user = crate::jwt::find_field(fields, "username");
    match (sub, iat, exp, user) {
        (Some(s), Some(i), Some(e), Some(u)) => {
            let sv = crate::json::string_value(s.as_slice());
            let iv = crate::json::int_value(i.as_slice());
            let ev = crate::json::int_value(e.as_slice());
            let uv = crate::json::string_value(u.as_slice());
            match (sv, iv, ev, uv) {
                (Some(sv), Some(iv), Some(ev), Some(uv)) => Some(
                    Claims {
                        sub: crate::text::string_from(sv.as_slice()),
                        iat: iv,
                        exp: ev,
                        username: crate::text::string_from(uv.as_slice()),
                    },
                ),
                _ => None,
            }
        },
        _ => None,
    }
}

/// Decodes a session token signed with `key`. A token that is accepted
/// and was written with some claims reads back as those claims; a token
/// written with claims is never found malformed.
pub fn decode_token(token: &str, key: &[u8]) -> (r: Result<Claims, TokenError>)
    ensures
        r is Ok ==> crate::jwt::hs256_signed(token@, key@),
        r matches Ok(c) ==> reads_back(token@, key@, c),
        session_token_written(token@, key@) ==> !(r matches Err(TokenError::MalformedClaims)),
{
    match crate::jwt::decode_claim_fields(token, key) {
        Err(e) => Err(TokenError::Rejected(e)),
        Ok(fields) => {
            let ghost fv = fields_view(fields@);
            proof {
                assert forall|sub: Seq<char>, iat: i64, exp: i64, username: Seq<char>|
                    token@ == #[trigger] signed_token(session_json(sub, iat as int, exp as int, username), key@)
                        implies session_of_fields(fv) == Some((sub, iat as int, exp as int, username)) by {
                    lemma_session_keys_distinct(sub, iat as int, exp as int, username);
                    lemma_written_session_read(fv, sub, iat, exp, username);
                }
            }
            match session_from_fields(&fields) {
                Some(c) => Ok(c),
                None => {
                    proof {
                        if session_token_written(token@, key@) {
                            let (sub, iat, exp, username) = choose|sub: Seq<char>, iat: i64, exp: i64, username: Seq<char>|
                                token@ == #[trigger] signed_token(session_json(sub, iat as int, exp as int, username), key@);
                            assert(session_of_fields(fv) == Some((sub, iat as int, exp as int, username)));
                        }
                    }
                    Err(TokenError::MalformedClaims)
                },
            }
        },
    }
}

/// Whether `token` is a session token written with some claims and
/// signed with `key`.
pub open spec fn session_token_written(token: Seq<char>, key: Seq<u8>) -> bool {
    exists|sub: Seq<char>, iat: i64, exp: i64, username: Seq<char>|
        token == #[trigger] signed_token(session_json(sub, iat as int, exp as int, username), key)
}

/// Members that agree with those written for some session claims are
/// read as those claims.
proof fn lemma_written_session_read(
    fv: Seq<(Seq<char>, Seq<char>)>,
    sub: Seq<char>,
    iat: i64,
    exp: i64,
    username: Seq<char>,
)
    requires
        crate::jwt::same_members(fv, session_fields(sub, iat as int, exp as int, username)),
    ensures
        session_of_fields(fv) == Some((sub, iat as int, exp as int, username)),
{
    let written = session_fields(sub, iat as int, exp as int, username);
    lemma_session_roundtrip(sub, iat, exp, username);
    assert(field(fv, "sub"@) == field(written, "sub"@));
    assert(field(fv, "iat"@) == field(written, "iat"@));
    assert(field(fv, "exp"@) == field(written, "exp"@));
    assert(field(fv, "username"@) == field(written, "username"@));
}

/// Whether claims are those a token was written with, whichever claims
/// it was written with.
pub open spec fn reads_back(token: Seq<char>, key: Seq<u8>, c: Claims) -> bool {
    forall|sub: Seq<char>, iat: i64, exp: i64, username: Seq<char>|
        token == #[trigger] signed_token(session_json(sub, iat as int, exp as int, username), key) ==> claims_view(c)
            == (sub, iat as int, exp as int, username)
}

/// The members of a session token's payload have distinct keys and
/// values written as JSON.
proof fn lemma_session_keys_distinct(sub: Seq<char>, iat: int, exp: int, username: Seq<char>)
    ensures
        crate::jwt::distinct_keys(session_fields(sub, iat, exp, username)),
        crate::jwt::written_values(session_fields(sub, iat, exp, username)),
{
    let f = session_fields(sub, iat, exp, username);
    assert(crate::jwt::written_value(json_quote(sub)));
    assert(crate::jwt::written_value(int_text(iat)));
    assert(crate::jwt::written_value(int_text(exp)));
    assert(crate::jwt::written_value(json_quote(username)));
    assert forall|i: int| 0 <= i < f.len() implies crate::jwt::written_value(#[trigger] f[i].1) by {
        if i == 0 {
            assert(f[i].1 == json_quote(sub));
        } else if i == 1 {
            assert(f[i].1 == int_text(iat));
        } else if i == 2 {
            assert(f[i].1 == int_text(exp));
        } else {
            assert(f[i].1 == json_quote(username));
        }
    }
    reveal_strlit("sub");
    reveal_strlit("iat");
    reveal_strlit("exp");
    reveal_strlit("username");
    assert("sub"@[0] != "iat"@[0] && "sub"@[0] != "exp"@[0] && "sub"@.len() != "username"@.len());
    assert("iat"@[0] != "exp"@[0] && "iat"@.len() != "username"@.len());
    assert("exp"@.len() != "username"@.len());
}

/// Checks a session token signed with `secret`; any refusal is
/// `Unauthorized`.
pub fn validate_token(token: &str, secret: &[u8]) -> (r: Result<Claims, ServiceError>)
    ensures
        match r {
            Ok(c) => reads_back(token@, secret@, c) && crate::jwt::hs256_signed(token@, secret@),
            Err(e) => e is Unauthorized,
        },
{
    match decode_token(token, secret) {
        Ok(c) => Ok(c),
        Err(_) => Err(ServiceError::Unauthorized),
    }
}

/// Accepts decoded session claims, answering with the user name.
pub fn verify_token(token_data: &Claims) -> (r: Result<String, String>)
    ensures
        r matches Ok(name) && name@ == token_data.username@,
{
    Ok(token_data.username.clone())
}

/// The claims written into a session token read back as the same claims.
pub proof fn lemma_session_roundtrip(sub: Seq<char>, iat: i64, exp: i64, username: Seq<char>)
    ensures
        session_of_fields(session_fields(sub, iat as int, exp as int, username)) == Some(
            (sub, iat as int, exp as int, username),
        ),
{
    let f = session_fields(sub, iat as int, exp as int, username);
    reveal_strlit("sub");
    reveal_strlit("iat");
    reveal_strlit("exp");
    reveal_strlit("username");
    let d1 = f.drop_first();
    let d2 = d1.drop_first();
    let d3 = d2.drop_first();
    assert("sub"@[0] != "iat"@[0] && "sub"@[0] != "exp"@[0] && "sub"@.len() != "username"@.len());
    assert("iat"@[0] != "exp"@[0] && "iat"@.len() != "username"@.len());
    assert("exp"@.len() != "username"@.len());
    assert(field(f, "sub"@) == Some(json_quote(sub)));
    assert(field(f, "iat"@) == field(d1, "iat"@));
    assert(field(f, "exp"@) == field(d1, "exp"@));
    assert(field(d1, "exp"@) == field(d2, "exp"@));
    assert(field(f, "username"@) == field(d1, "username"@));
    assert(field(d1, "username"@) == field(d2, "username"@));
    assert(field(d2, "username"@) == field(d3, "username"@));
    crate::json::lemma_string_value_quote(sub);
    crate::json::lemma_string_value_quote(username);
    crate::json::lemma_int_value_text(iat);
    crate::json::lemma_int_value_text(exp);
}

} // verus!

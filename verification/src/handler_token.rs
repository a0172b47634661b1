//! Tokens of the sign-in handlers: a subject, issue and expiry times as
//! unsigned numbers, and the user name, signed with HS256.
use vstd::prelude::*;
use crate::access_token::{chrono_time, TokenError};
use crate::json::{decimal_text, json_quote, json_string_value, json_unsigned_value};
use crate::jwt::{field, fields_view, member_text, object_text, signed_token};
use crate::session_token::ServiceError;

verus! {

/// Subject written into handler tokens when none is configured.
pub const DEFAULT_SUBJECT: &'static str = "h@d.com";

/// Hours a handler token stays valid when no lifetime is configured.
pub const DEFAULT_HOURS: i64 = 24;

/// The claims of a handler token.
pub struct Claims {
    pub sub: String,
    pub iat: usize,
    pub exp: usize,
    pub username: String,
}

/// The value of handler claims as text and numbers.
pub open spec fn claims_view(c: Claims) -> (Seq<char>, nat, nat, Seq<char>) {
    (c.sub@, c.iat as nat, c.exp as nat, c.username@)
}

/// The members of a handler token's payload, in the order written.
pub open spec fn handler_fields(sub: Seq<char>, iat: nat, exp: nat, username: Seq<char>) -> Seq<
    (Seq<char>, Seq<char>),
> {
    seq![
        ("sub"@, json_quote(sub)),
        ("iat"@, decimal_text(iat)),
        ("exp"@, decimal_text(exp)),
        ("username"@, json_quote(username)),
    ]
}

/// The JSON payload of a handler token.
pub open spec fn handler_json(sub: Seq<char>, iat: nat, exp: nat, username: Seq<char>) -> Seq<char> {
    object_text(handler_fields(sub, iat, exp, username))
}

/// A JSON number read as a `usize`.
pub open spec fn usize_value(raw: Seq<char>) -> Option<nat> {
    match json_unsigned_value(raw) {
        Some(v) => if v <= usize::MAX {
            Some(v)
        } else {
            None
        },
        None => None,
    }
}

/// The handler claims held by decoded payload members: `sub` and
/// `username` strings, `iat` and `exp` numbers that fit in `usize`.
pub open spec fn handler_claims_of_fields(fields: Seq<(Seq<char>, Seq<char>)>) -> Option<
    (Seq<char>, nat, nat, Seq<char>),
> {
    match (field(fields, "sub"@), field(fields, "iat"@), field(fields, "exp"@), field(fields, "username"@)) {
        (Some(s), Some(i), Some(e), Some(u)) => match (
            json_string_value(s),
            usize_value(i),
            usize_value(e),
            json_string_value(u),
        ) {
            (Some(sub), Some(iat), Some(exp), Some(username)) => Some((sub, iat, exp, username)),
            _ => None,
        },
        _ => None,
    }
}

/// A Unix time as the handlers store it: cast to `usize`, so that times
/// before the epoch wrap around.
pub open spec fn stored_time(t: int) -> nat {
    ((t as i64) as usize) as nat
}

/// Whether a span of `hours` hours is a `chrono::TimeDelta`: at most
/// `i64::MAX` milliseconds, in whole seconds, either way.
pub open spec fn span_hours_ok(hours: int) -> bool {
    -9_223_372_036_854_775 <= 3600 * hours <= 9_223_372_036_854_775
}

/// Whether a token issued at `now` for `hours` hours gets an expiry: the
/// span is a `TimeDelta` and the expiry a time `chrono` represents.
pub open spec fn expiry_ok(now: int, hours: int) -> bool {
    span_hours_ok(hours) && chrono_time(now + 3600 * hours)
}

/// `chrono`: the Unix time `hours` hours after the Unix time `t`, as
/// `DateTime::from_timestamp`, `TimeDelta::try_hours` and
/// `DateTime::checked_add_signed` compute it: some time exactly that many
/// seconds later when `t`, the span and the result all lie in `chrono`'s
/// range, otherwise `None`.
#[verifier::external_body]
fn later_by_hours(t: i64, hours: i64) -> (r: Option<i64>)
    ensures
        match r {
            Some(e) => chrono_time(t as int) && expiry_ok(t as int, hours as int) && e == t + 3600 * hours,
            None => !(chrono_time(t as int) && expiry_ok(t as int, hours as int)),
        },
{
    let start = chrono::DateTime::from_timestamp(t, 0)?;
    let span = chrono::TimeDelta::try_hours(hours)?;
    start.checked_add_signed(span).map(|d| d.timestamp())
}

fn push_member(out: &mut Vec<char>, key: &str, value: &[char])
    ensures
        final(out)@ == old(out)@ + member_text(key@, value@),
{
    let k = crate::text::chars_of(key);
    crate::json::push_quoted(out, k.as_slice());
    out.push(':');
    crate::text::push_range(out, value, 0, value.len());
    proof {
        assert(value@.subrange(0, value@.len() as int) =~= value@);
        assert(final(out)@ =~= old(out)@ + member_text(key@, value@));
    }
}

/// The JSON payload of handler claims.
pub fn handler_payload(claims: &Claims) -> (p: Vec<char>)
    ensures
        p@ == handler_json(claims.sub@, claims.iat as nat, claims.exp as nat, claims.username@),
{
    let mut sub: Vec<char> = Vec::new();
    crate::json::push_quoted(&mut sub, crate::text::chars_of(claims.sub.as_str()).as_slice());
    let mut iat: Vec<char> = Vec::new();
    crate::json::push_decimal(&mut iat, claims.iat as u64);
    let mut exp: Vec<char> = Vec::new();
    crate::json::push_decimal(&mut exp, claims.exp as u64);
    let mut user: Vec<char> = Vec::new();
    crate::json::push_quoted(&mut user, crate::text::chars_of(claims.username.as_str()).as_slice());
    let mut p: Vec<char> = Vec::new();
    p.push('{');
    push_member(&mut p, "sub", sub.as_slice());
    p.push(',');
    push_member(&mut p, "iat", iat.as_slice());
    p.push(',');
    push_member(&mut p, "exp", exp.as_slice());
    p.push(',');
    push_member(&mut p, "username", user.as_slice());
    p.push('}');
    proof {
        let f = handler_fields(claims.sub@, claims.iat as nat, claims.exp as nat, claims.username@);
        let d1 = f.drop_first();
        let d2 = d1.drop_first();
        let d3 = d2.drop_first();
        assert(d3 =~= seq![f[3]]);
        assert(d2 =~= seq![f[2], f[3]]);
        assert(d1 =~= seq![f[1], f[2], f[3]]);
        assert(crate::jwt::members_text(d3) == member_text(f[3].0, f[3].1));
        assert(crate::jwt::members_text(d2) == member_text(f[2].0, f[2].1) + seq![',']
            + crate::jwt::members_text(d3));
        assert(crate::jwt::members_text(d1) == member_text(f[1].0, f[1].1) + seq![',']
            + crate::jwt::members_text(d2));
        assert(crate::jwt::members_text(f) == member_text(f[0].0, f[0].1) + seq![',']
            + crate::jwt::members_text(d1));
        assert(p@ =~= handler_json(claims.sub@, claims.iat as nat, claims.exp as nat, claims.username@));
    }
    p
}

/// The handler token of `username` with subject `sub`, issued at Unix
/// time `iat` and expiring at `exp`, both stored as `usize`; a signing
/// failure is an internal error.
pub fn create_jwt_at(username: String, sub: String, iat: i64, exp: i64, key: &[u8]) -> (r: Result<
    String,
    ServiceError,
>)
    ensures
        r matches Ok(t) && t@ == signed_token(
            handler_json(sub@, stored_time(iat as int), stored_time(exp as int), username@),
            key@,
        ),
{
    let claims = Claims { sub, iat: iat as usize, exp: exp as usize, username };
    let p = handler_payload(&claims);
    match crate::jwt::sign_payload(p.as_slice(), key) {
        Ok(t) => Ok(t),
        Err(_) => Err(ServiceError::InternalServerError),
    }
}

/// The handler token of `username` with subject `sub`, issued now and
/// valid for `hours` hours. A lifetime that takes the expiry out of the
/// range of times `chrono` represents is an internal error; so is any
/// lifetime that is no `TimeDelta`, whatever the time.
pub fn create_jwt(username: String, key: &[u8], sub: String, hours: i64) -> (r: Result<
    String,
    ServiceError,
>)
    ensures
        r matches Ok(t) ==> exists|now: int|
            chrono_time(now) && expiry_ok(now, hours as int) && #[trigger] signed_token(
                handler_json(sub@, stored_time(now), stored_time(now + 3600 * hours), username@),
                key@,
            ) == t@,
        r is Err ==> (r matches Err(ServiceError::InternalServerError) && exists|now: int|
            chrono_time(now) && !#[trigger] expiry_ok(now, hours as int)),
        !span_hours_ok(hours as int) ==> r matches Err(ServiceError::InternalServerError),
{
    let now = crate::access_token::now_timestamp();
    match later_by_hours(now, hours) {
        None => Err(ServiceError::InternalServerError),
        Some(exp) => {
            let r = create_jwt_at(username, sub, now, exp, key);
            proof {
                assert(expiry_ok(now as int, hours as int));
                if r is Ok {
                    let t = r->Ok_0;
                    assert(signed_token(
                        handler_json(sub@, stored_time(now as int), stored_time(now + 3600 * hours), username@),
                        key@,
                    ) == t@);
                }
            }
            r
        },
    }
}

/// The handler claims held by decoded payload members, if well formed.
pub fn claims_from_fields(fields: &Vec<(String, String)>) -> (r: Option<Claims>)
    ensures
        match r {
            Some(c) => handler_claims_of_fields(fields_view(fields@)) == Some(claims_view(c)),
            None => handler_claims_of_fields(fields_view(fields@)) is None,
        },
{
    let sub = crate::jwt::find_field(fields, "sub");
    let iat = crate::jwt::find_field(fields, "iat");
    let exp = crate::jwt::find_field(fields, "exp");
    let user = crate::jwt::find_field(fields, "username");
    match (sub, iat, exp, user) {
        (Some(s), Some(i), Some(e), Some(u)) => {
            let limit: u64 = usize::MAX as u64;
            let sv = crate::json::string_value(s.as_slice());
            let iv = crate::json::unsigned_value(i.as_slice(), limit);
            let ev = crate::json::unsigned_value(e.as_slice(), limit);
            let uv = crate::json::string_value(u.as_slice());
            match (sv, iv, ev, uv) {
                (Some(sv), Some(iv), Some(ev), Some(uv)) => Some(
                    Claims {
                        sub: crate::text::string_from(sv.as_slice()),
                        iat: iv as usize,
                        exp: ev as usize,
                        username: crate::text::string_from(uv.as_slice()),
                    },
                ),
                _ => None,
            }
        },
        _ => None,
    }
}

/// Whether `token` is a handler token written with some claims and signed
/// with `key`.
pub open spec fn handler_token_written(token: Seq<char>, key: Seq<u8>) -> bool {
    exists|sub: Seq<char>, iat: usize, exp: usize, username: Seq<char>|
        token == #[trigger] signed_token(handler_json(sub, iat as nat, exp as nat, username), key)
}

/// Whether claims are those a handler token was written with, whichever
/// claims it was written with.
pub open spec fn handler_reads_back(token: Seq<char>, key: Seq<u8>, c: Claims) -> bool {
    forall|sub: Seq<char>, iat: usize, exp: usize, username: Seq<char>|
        token == #[trigger] signed_token(handler_json(sub, iat as nat, exp as nat, username), key)
            ==> claims_view(c) == (sub, iat as nat, exp as nat, username)
}

/// The members of a handler token's payload have distinct keys and values
/// written as JSON.
proof fn lemma_handler_fields_written(sub: Seq<char>, iat: nat, exp: nat, username: Seq<char>)
    ensures
        crate::jwt::distinct_keys(handler_fields(sub, iat, exp, username)),
        crate::jwt::written_values(handler_fields(sub, iat, exp, username)),
{
    reveal_strlit("sub");
    reveal_strlit("iat");
    reveal_strlit("exp");
    reveal_strlit("username");
    assert("sub"@[0] != "iat"@[0] && "sub"@[0] != "exp"@[0] && "sub"@.len() != "username"@.len());
    assert("iat"@[0] != "exp"@[0] && "iat"@.len() != "username"@.len());
    assert("exp"@.len() != "username"@.len());
    let f = handler_fields(sub, iat, exp, username);
    assert(crate::json::int_text(iat as int) == decimal_text(iat));
    assert(crate::json::int_text(exp as int) == decimal_text(exp));
    assert(crate::jwt::written_value(json_quote(sub)));
    assert(crate::jwt::written_value(crate::json::int_text(iat as int)));
    assert(crate::jwt::written_value(crate::json::int_text(exp as int)));
    assert(crate::jwt::written_value(json_quote(username)));
    assert forall|i: int| 0 <= i < f.len() implies crate::jwt::written_value(#[trigger] f[i].1) by {
        if i == 0 {
            assert(f[i].1 == json_quote(sub));
        } else if i == 1 {
            assert(f[i].1 == decimal_text(iat));
        } else if i == 2 {
            assert(f[i].1 == decimal_text(exp));
        } else {
            assert(f[i].1 == json_quote(username));
        }
    }
}

/// Members that agree with those written for some handler claims are read
/// as those claims.
proof fn lemma_written_handler_read(
    fv: Seq<(Seq<char>, Seq<char>)>,
    sub: Seq<char>,
    iat: usize,
    exp: usize,
    username: Seq<char>,
)
    requires
        crate::jwt::same_members(fv, handler_fields(sub, iat as nat, exp as nat, username)),
    ensures
        handler_claims_of_fields(fv) == Some((sub, iat as nat, exp as nat, username)),
{
    let written = handler_fields(sub, iat as nat, exp as nat, username);
    lemma_handler_roundtrip(sub, iat, exp, username);
    assert(field(fv, "sub"@) == field(written, "sub"@));
    assert(field(fv, "iat"@) == field(written, "iat"@));
    assert(field(fv, "exp"@) == field(written, "exp"@));
    assert(field(fv, "username"@) == field(written, "username"@));
}

/// Decodes a handler token signed with `key`. An accepted token carries an
/// HS256 signature under the key, and one that was written with some claims
/// reads back as those claims; a token written with claims is never found
/// malformed.
pub fn decode_token(token: &str, key: &[u8]) -> (r: Result<Claims, TokenError>)
    ensures
        r is Ok ==> crate::jwt::hs256_signed(token@, key@),
        r matches Ok(c) ==> handler_reads_back(token@, key@, c),
        handler_token_written(token@, key@) ==> !(r matches Err(TokenError::MalformedClaims)),
{
    match crate::jwt::decode_claim_fields(token, key) {
        Err(e) => Err(TokenError::Rejected(e)),
        Ok(fields) => {
            let ghost fv = fields_view(fields@);
            proof {
                assert forall|sub: Seq<char>, iat: usize, exp: usize, username: Seq<char>|
                    token@ == #[trigger] signed_token(handler_json(sub, iat as nat, exp as nat, username), key@)
                        implies handler_claims_of_fields(fv) == Some((sub, iat as nat, exp as nat, username)) by {
                    lemma_handler_fields_written(sub, iat as nat, exp as nat, username);
                    lemma_written_handler_read(fv, sub, iat, exp, username);
                }
            }
            match claims_from_fields(&fields) {
                Some(c) => Ok(c),
                None => {
                    proof {
                        if handler_token_written(token@, key@) {
                            let (sub, iat, exp, username) = choose|sub: Seq<char>, iat: usize, exp: usize, username: Seq<char>|
                                token@ == #[trigger] signed_token(handler_json(sub, iat as nat, exp as nat, username), key@);
                            assert(handler_claims_of_fields(fv) == Some((sub, iat as nat, exp as nat, username)));
                        }
                    }
                    Err(TokenError::MalformedClaims)
                },
            }
        },
    }
}

/// Checks a handler token signed with `key`: its claims when it decodes,
/// any refusal being `Unauthorized`.
pub fn validate_token(token: &str, key: &[u8]) -> (r: Result<Claims, ServiceError>)
    ensures
        match r {
            Ok(c) => handler_reads_back(token@, key@, c) && crate::jwt::hs256_signed(token@, key@),
            Err(e) => e is Unauthorized,
        },
{
    match decode_token(token, key) {
        Ok(c) => Ok(c),
        Err(_) => Err(ServiceError::Unauthorized),
    }
}

/// The claims written into a handler token read back as the same claims.
pub proof fn lemma_handler_roundtrip(sub: Seq<char>, iat: usize, exp: usize, username: Seq<char>)
    ensures
        handler_claims_of_fields(handler_fields(sub, iat as nat, exp as nat, username)) == Some(
            (sub, iat as nat, exp as nat, username),
        ),
{
    let f = handler_fields(sub, iat as nat, exp as nat, username);
    reveal_strlit("sub");
    reveal_strlit("iat");
    reveal_strlit("exp");
    reveal_strlit("username");
    let d1 = f.drop_first();
    let d2 = d1.drop_first();
    let d3 = d2.drop_first();
    assert("sub"@[0] != "iat"@[0] && "sub"@[0] != "exp"@[0] && "sub"@.len() != "username"@.len());
    assert("iat"@[0] != "exp"@[0] && "iat"@.len() != "username"@.len());
    assert("exp"@.len() != "username"@.len());
    assert(field(f, "sub"@) == Some(json_quote(sub)));
    assert(field(f, "iat"@) == field(d1, "iat"@));
    assert(field(f, "exp"@) == field(d1, "exp"@));
    assert(field(d1, "exp"@) == field(d2, "exp"@));
    assert(field(f, "username"@) == field(d1, "username"@));
    assert(field(d1, "username"@) == field(d2, "username"@));
    assert(field(d2, "username"@) == field(d3, "username"@));
    crate::json::lemma_string_value_quote(sub);
    crate::json::lemma_string_value_quote(username);
    crate::json::lemma_unsigned_value_text(iat as nat);
    crate::json::lemma_unsigned_value_text(exp as nat);
}

} // verus!

use vstd::prelude::*;
use crate::json::{json_quote, int_text, json_string_value, json_int_value, opt_chars};
use crate::jwt::{field, fields_view, object_text, member_text, signed_token};
use crate::roles::{CustomError, Role, role_name, role_of_name, VARIANT_NOT_FOUND_MESSAGE};
use crate::text::{header_text, replace_all};

verus! {

/// Lifetime of an access token, in seconds.
pub const ACCESS_TOKEN_LIFETIME: i64 = 3600;

/// The text of a header value that is not visible ASCII.
pub const HEADER_NOT_TEXT_MESSAGE: &'static str = "failed to convert header to a str";

/// The claims an access token carries: the user name, the expiry as a
/// Unix time in seconds, and the role name.
pub struct Claims {
    pub sub: String,
    pub exp: i64,
    pub role: String,
}

/// Why a token was not accepted.
pub enum TokenError {
    /// The token decoder refused the token: bad shape, bad signature,
    /// wrong algorithm, missing or past expiry.
    Rejected(jsonwebtoken::errors::Error),
    /// The signed claims lack a member or hold one of the wrong type.
    MalformedClaims,
}

/// The members of the payload of an access token, in the order they are
/// written: `sub`, `exp`, `role`.
pub open spec fn claims_fields(sub: Seq<char>, exp: int, role: Seq<char>) -> Seq<(Seq<char>, Seq<char>)> {
    seq![("sub"@, json_quote(sub)), ("exp"@, int_text(exp)), ("role"@, json_quote(role))]
}

/// The JSON payload of an access token.
pub open spec fn claims_json(sub: Seq<char>, exp: int, role: Seq<char>) -> Seq<char> {
    object_text(claims_fields(sub, exp, role))
}

/// The claims held by decoded payload members: each of `sub`, `exp` and
/// `role` must be present with a value of the right type; other members
/// are ignored.
pub open spec fn claims_of_fields(fields: Seq<(Seq<char>, Seq<char>)>) -> Option<(Seq<char>, int, Seq<char>)> {
    match (field(fields, "sub"@), field(fields, "exp"@), field(fields, "role"@)) {
        (Some(s), Some(e), Some(r)) => match (json_string_value(s), json_int_value(e), json_string_value(r)) {
            (Some(sub), Some(exp), Some(role)) => Some((sub, exp, role)),
            _ => None,
        },
        _ => None,
    }
}

/// The value of claims as text and numbers.
pub open spec fn claims_view(c: Claims) -> (Seq<char>, int, Seq<char>) {
    (c.sub@, c.exp as int, c.role@)
}

/// A point in time as `chrono` represents it, in Unix seconds: the
/// years `chrono` can represent keep it within nine trillion seconds of
/// the epoch.
pub open spec fn representable_time(t: int) -> bool {
    -9_000_000_000_000 <= t <= 9_000_000_000_000
}

/// A Unix time, in seconds, that `chrono` represents: from the first
/// second of the year -262143 to the last second of the year 262142.
pub open spec fn chrono_time(t: int) -> bool {
    -8_334_601_228_800 <= t <= 8_210_266_876_799
}

/// `chrono::Local::now().timestamp()`: the current Unix time in seconds.
/// The clock is not modelled; only the range every `chrono` time lies in
/// is claimed.
#[verifier::external_body]
pub(crate) fn now_timestamp() -> (t: i64)
    ensures
        representable_time(t as int),
        chrono_time(t as int),
{
    chrono::Local::now().timestamp()
}

/// The secret used to sign access tokens, as configured.
pub fn get_jwt_secret_key(configured: &str) -> (key: String)
    ensures
        key@ == configured@,
{
    configured.to_string()
}

fn push_member(out: &mut Vec<char>, key: &str, value: &[char])
    ensures
        final(out)@ == old(out)@ + member_text(key@, value@),
{
    let k = crate::text::chars_of(key);
    crate::json::push_quoted(out, k.as_slice());
    out.push(':');
    crate::text::push_range(out, value, 0, value.len());
    proof {
        assert(value@.subrange(0, value@.len() as int) =~= value@);
        assert(final(out)@ =~= old(out)@ + member_text(key@, value@));
    }
}

/// The JSON payload of `claims`.
pub fn claims_payload(claims: &Claims) -> (p: Vec<char>)
    ensures
        p@ == claims_json(claims.sub@, claims.exp as int, claims.role@),
{
    let mut sub: Vec<char> = Vec::new();
    crate::json::push_quoted(&mut sub, crate::text::chars_of(claims.sub.as_str()).as_slice());
    let mut exp: Vec<char> = Vec::new();
    crate::json::push_int(&mut exp, claims.exp);
    let mut role: Vec<char> = Vec::new();
    crate::json::push_quoted(&mut role, crate::text::chars_of(claims.role.as_str()).as_slice());
    let mut p: Vec<char> = Vec::new();
    p.push('{');
    push_member(&mut p, "sub", sub.as_slice());
    p.push(',');
    push_member(&mut p, "exp", exp.as_slice());
    p.push(',');
    push_member(&mut p, "role", role.as_slice());
    p.push('}');
    proof {
        let f = claims_fields(claims.sub@, claims.exp as int, claims.role@);
        assert(sub@ =~= json_quote(claims.sub@));
        assert(exp@ =~= int_text(claims.exp as int));
        assert(role@ =~= json_quote(claims.role@));
        let d1 = f.drop_first();
        let d2 = d1.drop_first();
        assert(d2 =~= seq![f[2]]);
        assert(d1 =~= seq![f[1], f[2]]);
        assert(crate::jwt::members_text(d2) == member_text(f[2].0, f[2].1));
        assert(crate::jwt::members_text(d1) == member_text(f[1].0, f[1].1) + seq![','] + crate::jwt::members_text(d2));
        assert(crate::jwt::members_text(f) == member_text(f[0].0, f[0].1) + seq![','] + crate::jwt::members_text(d1));
        assert(p@ =~= claims_json(claims.sub@, claims.exp as int, claims.role@));
    }
    p
}

/// Signs `claims` with `secret` as a compact HS256 token.
pub fn encode_claims(claims: &Claims, secret: &[u8]) -> (r: Result<String, jsonwebtoken::errors::Error>)
    ensures
        r matches Ok(t) && t@ == signed_token(claims_json(claims.sub@, claims.exp as int, claims.role@), secret@),
{
    let p = claims_payload(claims);
    crate::jwt::sign_payload(p.as_slice(), secret)
}

/// The access token of `username` holding `role`, issued at Unix time
/// `now`: it expires one hour later.
pub fn create_jwt_token_at(username: String, role: Role, now: i64, secret: &[u8]) -> (r: Result<
    String,
    jsonwebtoken::errors::Error,
>)
    requires
        representable_time(now as int),
    ensures
        r matches Ok(t) && t@ == signed_token(claims_json(username@, now + ACCESS_TOKEN_LIFETIME, role_name(role)), secret@),
{
    let claims = Claims { sub: username, exp: now + ACCESS_TOKEN_LIFETIME, role: role.to_string() };
    encode_claims(&claims, secret)
}

/// The access token of `username` holding `role`, issued now: it expires
/// one hour after the current time.
pub fn create_jwt_token(username: String, role: Role, secret: &[u8]) -> (r: Result<
    String,
    jsonwebtoken::errors::Error,
>)
    ensures
        exists|now: int| representable_time(now) && (r matches Ok(t) && t@ == signed_token(claims_json(username@, now + ACCESS_TOKEN_LIFETIME, role_name(role)), secret@)),
{
    let now = now_timestamp();
    create_jwt_token_at(username, role, now, secret)
}

/// The claims held by decoded payload members, if they are well formed.
pub fn claims_from_fields(fields: &Vec<(String, String)>) -> (r: Option<Claims>)
    ensures
        match r {
            Some(c) => claims_of_fields(fields_view(fields@)) == Some(claims_view(c)),
            None => claims_of_fields(fields_view(fields@)) is None,
        },
{
    let sub = crate::jwt::find_field(fields, "sub");
    let exp = crate::jwt::find_field(fields, "exp");
    let role = crate::jwt::find_field(fields, "role");
    match (sub, exp, role) {
        (Some(s), Some(e), Some(r)) => {
            let sv = crate::json::string_value(s.as_slice());
            let ev = crate::json::int_value(e.as_slice());
            let rv = crate::json::string_value(r.as_slice());
            match (sv, ev, rv) {
                (Some(sv), Some(ev), Some(rv)) => Some(
                    Claims {
                        sub: crate::text::string_from(sv.as_slice()),
                        exp: ev,
                        role: crate::text::string_from(rv.as_slice()),
                    },
                ),
                _ => None,
            }
        },
        _ => None,
    }
}

/// Decodes and checks an access token signed with `secret`: the decoder
/// decides whether the token is accepted now, then its claims must be well
/// formed.
pub fn decode_jwt_token(token: &str, secret: &[u8]) -> (r: Result<Claims, TokenError>)
    ensures
        r is Ok ==> crate::jwt::hs256_signed(token@, secret@),
        r matches Ok(c) ==> access_reads_back(token@, secret@, c),
        access_token_written(token@, secret@) ==> !(r matches Err(TokenError::MalformedClaims)),
{
    match crate::jwt::decode_claim_fields(token, secret) {
        Err(e) => Err(TokenError::Rejected(e)),
        Ok(fields) => {
            let ghost fv = fields_view(fields@);
            proof {
                assert forall|sub: Seq<char>, exp: i64, role: Seq<char>|
                    token@ == #[trigger] signed_token(claims_json(sub, exp as int, role), secret@) implies claims_of_fields(
                    fv,
                ) == Some((sub, exp as int, role)) by {
                    lemma_claims_keys_distinct(sub, exp as int, role);
                    lemma_written_claims_read(fv, sub, exp, role);
                }
            }
            match claims_from_fields(&fields) {
                Some(c) => Ok(c),
                None => {
                    proof {
                        if access_token_written(token@, secret@) {
                            let (sub, exp, role) = choose|sub: Seq<char>, exp: i64, role: Seq<char>|
                                token@ == #[trigger] signed_token(claims_json(sub, exp as int, role), secret@);
                            assert(claims_of_fields(fv) == Some((sub, exp as int, role)));
                        }
                    }
                    Err(TokenError::MalformedClaims)
                },
            }
        },
    }
}

/// Whether `token` is an access token written with some claims and signed
/// with `secret`.
pub open spec fn access_token_written(token: Seq<char>, secret: Seq<u8>) -> bool {
    exists|sub: Seq<char>, exp: i64, role: Seq<char>|
        token == #[trigger] signed_token(claims_json(sub, exp as int, role), secret)
}

/// Members that agree with those written for some claims are read as
/// those claims.
proof fn lemma_written_claims_read(fv: Seq<(Seq<char>, Seq<char>)>, sub: Seq<char>, exp: i64, role: Seq<char>)
    requires
        crate::jwt::same_members(fv, claims_fields(sub, exp as int, role)),
    ensures
        claims_of_fields(fv) == Some((sub, exp as int, role)),
{
    let written = claims_fields(sub, exp as int, role);
    lemma_claims_roundtrip(sub, exp, role);
    assert(field(fv, "sub"@) == field(written, "sub"@));
    assert(field(fv, "exp"@) == field(written, "exp"@));
    assert(field(fv, "role"@) == field(written, "role"@));
}

/// Whether claims are those an access token was written with, whichever
/// claims it was written with.
pub open spec fn access_reads_back(token: Seq<char>, secret: Seq<u8>, c: Claims) -> bool {
    forall|sub: Seq<char>, exp: i64, role: Seq<char>|
        token == #[trigger] signed_token(claims_json(sub, exp as int, role), secret) ==> claims_view(c) == (
            sub,
            exp as int,
            role,
        )
}

/// The members of an access token's payload have distinct keys and
/// values written as JSON.
proof fn lemma_claims_keys_distinct(sub: Seq<char>, exp: int, role: Seq<char>)
    ensures
        crate::jwt::distinct_keys(claims_fields(sub, exp, role)),
        crate::jwt::written_values(claims_fields(sub, exp, role)),
{
    let f = claims_fields(sub, exp, role);
    assert(crate::jwt::written_value(json_quote(sub)));
    assert(crate::jwt::written_value(int_text(exp)));
    assert(crate::jwt::written_value(json_quote(role)));
    assert forall|i: int| 0 <= i < f.len() implies crate::jwt::written_value(#[trigger] f[i].1) by {
        if i == 0 {
            assert(f[i].1 == json_quote(sub));
        } else if i == 1 {
            assert(f[i].1 == int_text(exp));
        } else {
            assert(f[i].1 == json_quote(role));
        }
    }
    reveal_strlit("sub");
    reveal_strlit("exp");
    reveal_strlit("role");
    assert("sub"@[0] != "exp"@[0]);
    assert("sub"@[0] != "role"@[0]);
    assert("exp"@.len() != "role"@.len());
}

/// The claims written into a token read back as the same claims: the
/// payload members produced for any user name, expiry and role name are
/// understood by the claims reader as exactly those values.
pub proof fn lemma_claims_roundtrip(sub: Seq<char>, exp: i64, role: Seq<char>)
    ensures
        claims_of_fields(claims_fields(sub, exp as int, role)) == Some((sub, exp as int, role)),
{
    let f = claims_fields(sub, exp as int, role);
    reveal_strlit("sub");
    reveal_strlit("exp");
    reveal_strlit("role");
    assert(f.drop_first()[0].0 == "exp"@);
    assert(f.drop_first().drop_first()[0].0 == "role"@);
    assert("sub"@[0] != "exp"@[0]);
    assert("sub"@[0] != "role"@[0]);
    assert("exp"@.len() != "role"@.len());
    assert(field(f, "sub"@) == Some(json_quote(sub)));
    assert(field(f, "exp"@) == field(f.drop_first(), "exp"@));
    assert(field(f, "exp"@) == Some(int_text(exp as int)));
    assert(field(f.drop_first(), "role"@) == field(f.drop_first().drop_first(), "role"@));
    assert(field(f, "role"@) == Some(json_quote(role)));
    crate::json::lemma_string_value_quote(sub);
    crate::json::lemma_string_value_quote(role);
    crate::json::lemma_int_value_text(exp);
}


/// The role named in decoded claims, or the refusal of that name; when
/// the token was not accepted the caller's role is unknown.
pub open spec fn role_outcome(decoded_role: Option<Seq<char>>) -> Result<Option<Role>, Seq<char>> {
    match decoded_role {
        None => Ok(None),
        Some(name) => match role_of_name(name) {
            Some(role) => Ok(Some(role)),
            None => Err(VARIANT_NOT_FOUND_MESSAGE@),
        },
    }
}

/// The role named by a decoding outcome.
pub fn role_from_decoded(decoded: &Result<Claims, TokenError>) -> (r: Result<Option<Role>, CustomError>)
    ensures
        crate::roles::lookup_view(r) == role_outcome(
            match decoded {
                Ok(c) => Some(c.role@),
                Err(_) => None,
            },
        ),
{
    match decoded {
        Ok(claims) => match Role::from_str(claims.role.as_str()) {
            Ok(role) => Ok(Some(role)),
            Err(e) => Err(e),
        },
        Err(_) => Ok(None),
    }
}

/// The token text of an `Authorization` header: the header must be
/// visible ASCII, and every `Bearer ` in it is removed.
pub open spec fn bearer_text(h: Seq<u8>) -> Option<Seq<char>> {
    match header_text(h) {
        Some(t) => Some(replace_all(t, "Bearer "@, Seq::empty())),
        None => None,
    }
}

/// Reads the token out of an `Authorization` header value.
pub fn bearer_token_text(header: &[u8]) -> (r: Result<Vec<char>, CustomError>)
    ensures
        match r {
            Ok(t) => bearer_text(header@) == Some(t@),
            Err(e) => bearer_text(header@) is None && e.message@ == HEADER_NOT_TEXT_MESSAGE@,
        },
{
    match crate::text::header_to_text(header) {
        None => Err(CustomError::from_message(HEADER_NOT_TEXT_MESSAGE)),
        Some(t) => {
            let bearer = crate::text::chars_of("Bearer ");
            proof {
                reveal_strlit("Bearer ");
            }
            let empty: Vec<char> = Vec::new();
            let r = crate::text::replace(t.as_slice(), bearer.as_slice(), empty.as_slice());
            proof {
                assert(empty@ =~= Seq::<char>::empty());
            }
            Ok(r)
        },
    }
}

/// The role of the caller whose request carried `authorization` (the
/// value of its `Authorization` header, if any): no header means no known
/// role; a header that is not visible ASCII is an error; otherwise the
/// token is decoded with `secret`, a refused token means no known role,
/// and an accepted token's role name must name a role.
pub fn get_role(authorization: Option<&[u8]>, secret: &[u8]) -> (r: Result<Option<Role>, CustomError>)
    ensures
        match authorization {
            None => crate::roles::lookup_view(r) == Ok::<Option<Role>, Seq<char>>(None),
            Some(h) => match bearer_text(h@) {
                None => crate::roles::lookup_view(r) == Err::<Option<Role>, Seq<char>>(HEADER_NOT_TEXT_MESSAGE@),
                Some(tok) => {
                    &&& exists|d: Option<Seq<char>>| crate::roles::lookup_view(r) == role_outcome(d)
                    &&& forall|role: Role| access_token_for_role(tok, secret@, role) ==> (
                        crate::roles::lookup_view(r) == Ok::<Option<Role>, Seq<char>>(Some(role))
                        || crate::roles::lookup_view(r) == Ok::<Option<Role>, Seq<char>>(None))
                },
            },
        },
{
    match authorization {
        None => Ok(None),
        Some(h) => {
            let token = match bearer_token_text(h) {
                Ok(t) => t,
                Err(e) => {
                    return Err(e);
                },
            };
            let token_str = crate::text::string_from(token.as_slice());
            let decoded = decode_jwt_token(token_str.as_str(), secret);
            let r = role_from_decoded(&decoded);
            proof {
                assert forall|role: Role| access_token_for_role(token@, secret@, role) implies (
                    crate::roles::lookup_view(r) == Ok::<Option<Role>, Seq<char>>(Some(role))
                    || crate::roles::lookup_view(r) == Ok::<Option<Role>, Seq<char>>(None)) by {
                    let (sub, exp) = choose|sub: Seq<char>, exp: i64|
                        token@ == #[trigger] signed_token(claims_json(sub, exp as int, role_name(role)), secret@);
                    if decoded is Ok {
                        let c = decoded->Ok_0;
                        assert(access_reads_back(token_str@, secret@, c));
                        assert(claims_view(c) == (sub, exp as int, role_name(role)));
                        crate::roles::lemma_role_name_roundtrip(role);
                    }
                }
            }
            r
        },
    }
}

/// Whether `token` is an access token holding `role`, for any user and
/// expiry, signed with `secret`.
pub open spec fn access_token_for_role(token: Seq<char>, secret: Seq<u8>, role: Role) -> bool {
    exists|sub: Seq<char>, exp: i64| token == #[trigger] signed_token(claims_json(sub, exp as int, role_name(role)), secret)
}

} // verus!

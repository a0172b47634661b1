use vstd::prelude::*;
use crate::access_token::TokenError;
use crate::jwt::hs256_signed;
use crate::session_token::{ServiceError, ServiceErrorView, service_error_view, Claims, claims_view, session_json, validate_token, NO_AUTHORIZATION_HEADER_MESSAGE};
use crate::jwt::signed_token;
use crate::text::{header_text, starts_with, trim};
use crate::uuid::{uuid_parse, uuid_text};

verus! {

/// The route a refused request is sent to.
pub const LOGIN_ROUTE: &'static str = "api/login";

/// The name of the header that carries credentials.
pub const AUTHORIZATION: &'static str = "Authorization";

/// The token in a credentials text: after a `bearer` or `Bearer` scheme
/// word (six characters), with surrounding white space removed.
pub open spec fn scheme_token(t: Seq<char>) -> Option<Seq<char>> {
    if starts_with(t, "bearer"@) || starts_with(t, "Bearer"@) {
        Some(trim(t.skip(6)))
    } else {
        None
    }
}

/// Reads the token after the `bearer`/`Bearer` scheme word.
pub fn token_after_scheme(t: &[char]) -> (r: Option<Vec<char>>)
    ensures
        crate::json::opt_chars(r) == scheme_token(t@),
{
    let lower = crate::text::chars_of("bearer");
    let upper = crate::text::chars_of("Bearer");
    proof {
        reveal_strlit("bearer");
        reveal_strlit("Bearer");
    }
    if !crate::text::has_prefix(t, lower.as_slice()) && !crate::text::has_prefix(t, upper.as_slice()) {
        return None;
    }
    let rest = crate::text::slice_chars(t, 6, t.len());
    proof {
        assert(rest@ =~= t@.skip(6));
    }
    Some(crate::text::trimmed(rest.as_slice()))
}

/// Whether a request path lies under one of the routes that need no
/// credentials.
pub open spec fn ignored_route(path: Seq<char>, routes: Seq<Seq<char>>) -> bool {
    exists|i: int| 0 <= i < routes.len() && starts_with(path, #[trigger] routes[i])
}

/// A path is ignored exactly when one of the ignored routes is a prefix
/// of it: no longer than the path, and equal to its beginning. So a path
/// shorter than every ignored route is never ignored.
pub proof fn lemma_ignored_means_route_prefix(path: Seq<char>, routes: Seq<Seq<char>>)
    ensures
        ignored_route(path, routes) <==> exists|i: int|
            0 <= i < routes.len() && #[trigger] routes[i].len() <= path.len() && path.take(routes[i].len() as int)
                == routes[i],
        (forall|i: int| 0 <= i < routes.len() ==> #[trigger] routes[i].len() > path.len()) ==> !ignored_route(
            path,
            routes,
        ),
{
}

/// What becomes of a request.
#[derive(PartialEq, Eq, Structural, Clone, Copy, Debug)]
pub enum Admission {
    /// The request goes on to the service.
    Forward,
    /// The request is answered with a redirection to the login route.
    RedirectToLogin,
}

/// A request that passed is forwarded; one that did not is sent to the
/// login route, unless it already is on it.
pub open spec fn admission_of(passes: bool, path: Seq<char>) -> Admission {
    if !passes && path != LOGIN_ROUTE@ {
        Admission::RedirectToLogin
    } else {
        Admission::Forward
    }
}

/// The token a request offers for checking: only with a database pool at
/// hand, a visible ASCII `Authorization` header and a bearer scheme.
pub open spec fn offered_token(has_pool: bool, authorization: Option<Seq<u8>>) -> Option<Seq<char>> {
    if !has_pool {
        None
    } else {
        match authorization {
            None => None,
            Some(h) => match header_text(h) {
                None => None,
                Some(t) => scheme_token(t),
            },
        }
    }
}

/// Decides the fate of a request once it is known whether it passed.
pub fn admission(passes: bool, path: &str) -> (a: Admission)
    ensures
        a == admission_of(passes, path@),
{
    proof {
        reveal_strlit("api/login");
    }
    if !passes && !crate::text::str_equal(path, LOGIN_ROUTE) {
        Admission::RedirectToLogin
    } else {
        Admission::Forward
    }
}

/// The middleware factory: the key session tokens are signed with and the
/// routes that need no credentials.
pub struct Authentication {
    pub key: Vec<u8>,
    pub ignore_routes: Vec<String>,
}

/// The middleware that admits or turns away each request.
pub struct AuthenticationMiddleware {
    pub key: Vec<u8>,
    pub ignore_routes: Vec<String>,
}

/// The routes as text.
pub open spec fn routes_view(routes: Seq<String>) -> Seq<Seq<char>> {
    routes.map_values(|r: String| r@)
}

impl Authentication {
    pub fn new(key: &[u8], ignore_routes: &[&str]) -> (a: Authentication)
        ensures
            a.key@ == key@,
            a.ignore_routes@.len() == ignore_routes@.len(),
            forall|j: int| 0 <= j < ignore_routes@.len() ==> #[trigger] a.ignore_routes@[j]@ == ignore_routes@[j]@,
    {
        broadcast use vstd::string::group_string_axioms;
        let mut routes: Vec<String> = Vec::new();
        let mut i: usize = 0;
        while i < ignore_routes.len()
            invariant
                i <= ignore_routes@.len(),
                routes@.len() == i,
                forall|j: int| 0 <= j < i ==> #[trigger] routes@[j]@ == ignore_routes@[j]@,
            decreases ignore_routes.len() - i,
        {
            let route: &str = ignore_routes[i];
            routes.push(route.to_owned());
            i = i + 1;
        }
        Authentication { key: vstd::slice::slice_to_vec(key), ignore_routes: routes }
    }

    pub fn new_transform(&self) -> (m: AuthenticationMiddleware)
        ensures
            m.key@ == self.key@,
            m.ignore_routes@ == self.ignore_routes@,
    {
        AuthenticationMiddleware { key: self.key.clone(), ignore_routes: self.ignore_routes.clone() }
    }
}

impl AuthenticationMiddleware {
    /// Whether the path lies under a route that needs no credentials.
    pub fn is_ignored(&self, path: &str) -> (r: bool)
        ensures
            r == ignored_route(path@, routes_view(self.ignore_routes@)),
            r <==> exists|i: int|
                0 <= i < self.ignore_routes@.len() && #[trigger] self.ignore_routes@[i]@.len() <= path@.len()
                    && path@.take(self.ignore_routes@[i]@.len() as int) == self.ignore_routes@[i]@,
    {
        let p = crate::text::chars_of(path);
        let ghost rv = routes_view(self.ignore_routes@);
        let mut i: usize = 0;
        while i < self.ignore_routes.len()
            invariant
                rv == routes_view(self.ignore_routes@),
                i <= self.ignore_routes@.len(),
                p@ == path@,
                forall|j: int| 0 <= j < i ==> !starts_with(path@, #[trigger] rv[j]),
            decreases self.ignore_routes.len() - i,
        {
            let route = crate::text::chars_of(self.ignore_routes[i].as_str());
            if crate::text::has_prefix(p.as_slice(), route.as_slice()) {
                proof {
                    assert(rv[i as int] == route@);
                    assert(self.ignore_routes@[i as int]@.len() <= path@.len());
                }
                return true;
            }
            i = i + 1;
        }
        proof {
            assert forall|j: int| 0 <= j < self.ignore_routes@.len() implies !(#[trigger] self.ignore_routes@[j]@.len()
                <= path@.len() && path@.take(self.ignore_routes@[j]@.len() as int) == self.ignore_routes@[j]@) by {
                assert(rv[j] == self.ignore_routes@[j]@);
            }
        }
        false
    }

    /// Admits or turns away a request: a preflight (`OPTIONS`) request or
    /// one under a route that needs no credentials passes; otherwise it
    /// passes only when a database pool is at hand and the bearer token in
    /// its `Authorization` header decodes with the key. A request that
    /// does not pass is sent to the login route unless it is on it.
    pub fn call(&self, is_options: bool, path: &str, has_pool: bool, authorization: Option<&[u8]>) -> (a: Admission)
        ensures
            is_options || ignored_route(path@, routes_view(self.ignore_routes@)) ==> a == Admission::Forward,
            !(is_options || ignored_route(path@, routes_view(self.ignore_routes@))) ==> match offered_token(
                has_pool,
                match authorization {
                    Some(h) => Some(h@),
                    None => None,
                },
            ) {
                None => a == admission_of(false, path@),
                Some(tok) => {
                    &&& (a == Admission::Forward || a == admission_of(false, path@))
                    &&& !hs256_signed(tok, self.key@) ==> a == admission_of(false, path@)
                },
            },
            !is_options && authorization is None && (forall|i: int|
                0 <= i < self.ignore_routes@.len() ==> #[trigger] self.ignore_routes@[i]@.len() > path@.len())
                ==> (a == Admission::RedirectToLogin <==> path@ != LOGIN_ROUTE@),
    {
        proof {
            lemma_ignored_means_route_prefix(path@, routes_view(self.ignore_routes@));
            if forall|i: int| 0 <= i < self.ignore_routes@.len() ==> #[trigger] self.ignore_routes@[i]@.len() > path@.len() {
                let rv = routes_view(self.ignore_routes@);
                assert forall|i: int| 0 <= i < rv.len() implies #[trigger] rv[i].len() > path@.len() by {
                    assert(rv[i] == self.ignore_routes@[i]@);
                }
            }
        }
        let pass_through = is_options || self.is_ignored(path);
        let mut decoded: Option<Result<Claims, TokenError>> = None;
        if !pass_through && has_pool {
            if let Some(h) = authorization {
                if let Some(t) = crate::text::header_to_text(h) {
                    if let Some(token) = token_after_scheme(t.as_slice()) {
                        let token = crate::text::string_from(token.as_slice());
                        decoded = Some(crate::session_token::decode_token(token.as_str(), self.key.as_slice()));
                    }
                }
            }
        }
        admit_decoded(pass_through, decoded, path)
    }
}

/// Decides a request from what was found: `pass_through` when it is a
/// preflight or under a route that needs no credentials, and the outcome
/// of decoding the token it offers, if it offers one. A request passes
/// through, or with a token that decodes and whose claims are accepted; any
/// other is sent to the login route unless it is on it.
pub fn admit_decoded(pass_through: bool, decoded: Option<Result<Claims, TokenError>>, path: &str) -> (a: Admission)
    ensures
        a == (if pass_through || decoded matches Some(Ok(_)) {
            Admission::Forward
        } else {
            admission_of(false, path@)
        }),
{
    let mut passes = pass_through;
    if !passes {
        if let Some(Ok(data)) = &decoded {
            if crate::session_token::verify_token(data).is_ok() {
                passes = true;
            }
        }
    }
    admission(passes, path)
}

/// The view of a user id lookup outcome.
pub open spec fn uid_view(r: Option<Result<u128, ServiceError>>) -> Option<Result<u128, ServiceErrorView>> {
    match r {
        None => None,
        Some(Ok(u)) => Some(Ok(u)),
        Some(Err(e)) => Some(Err(service_error_view(e))),
    }
}

/// The user id held by a token check outcome: the subject must be a
/// user id; when it is not, there is no outcome at all.
pub open spec fn uid_outcome(checked: Result<Seq<char>, ServiceErrorView>) -> Option<Result<u128, ServiceErrorView>> {
    match checked {
        Err(e) => Some(Err(e)),
        Ok(sub) => match uuid_parse(sub) {
            Some(u) => Some(Ok(u)),
            None => None,
        },
    }
}

/// The user id carried by a session token check: the subject read as a
/// user id.
pub fn uid_from_checked(checked: Result<Claims, ServiceError>) -> (r: Option<Result<u128, ServiceError>>)
    ensures
        uid_view(r) == uid_outcome(
            match checked {
                Ok(c) => Ok(c.sub@),
                Err(e) => Err(service_error_view(e)),
            },
        ),
        checked matches Ok(c) ==> forall|v: u128| c.sub@ == #[trigger] uuid_text(v) ==> r == Some(
            Ok::<u128, ServiceError>(v),
        ),
{
    match checked {
        Err(e) => Some(Err(e)),
        Ok(c) => match crate::uuid::parse_uuid(c.sub.as_str()) {
            Some(u) => Some(Ok(u)),
            None => None,
        },
    }
}

/// Whether `token` is a session token of the user with id `user`, issued
/// with any times and name, signed with `key`.
pub open spec fn session_token_of(token: Seq<char>, key: Seq<u8>, user: u128) -> bool {
    exists|iat: i64, exp: i64, name: Seq<char>|
        token == #[trigger] signed_token(session_json(uuid_text(user), iat as int, exp as int, name), key)
}

/// The id of the user a request comes from, read from its
/// `Authorization` header and checked with `key`: a missing header is a
/// bad request, a header that is not visible ASCII an internal error, a
/// header without a bearer scheme or with a refused token unauthorized.
/// A session token of a user gives that user's id when it is accepted.
/// When an accepted token's subject is not a user id there is no outcome.
pub fn get_uid_from_request(authorization: Option<&[u8]>, key: &[u8]) -> (r: Option<Result<u128, ServiceError>>)
    ensures
        match authorization {
            None => uid_view(r) == Some(Err::<u128, ServiceErrorView>(ServiceErrorView::BadRequest(NO_AUTHORIZATION_HEADER_MESSAGE@))),
            Some(h) => match header_text(h@) {
                None => uid_view(r) == Some(Err::<u128, ServiceErrorView>(ServiceErrorView::InternalServerError)),
                Some(t) => match scheme_token(t) {
                    None => uid_view(r) == Some(Err::<u128, ServiceErrorView>(ServiceErrorView::Unauthorized)),
                    Some(tok) => {
                        &&& (uid_view(r) == Some(Err::<u128, ServiceErrorView>(ServiceErrorView::Unauthorized))
                            || exists|sub: Seq<char>| uid_view(r) == uid_outcome(Ok(sub)))
                        &&& forall|user: u128| session_token_of(tok, key@, user) ==> (r == Some(
                            Ok::<u128, ServiceError>(user),
                        ) || uid_view(r) == Some(Err::<u128, ServiceErrorView>(ServiceErrorView::Unauthorized)))
                    },
                },
            },
        },
{
    let h = match authorization {
        Some(h) => h,
        None => {
            return Some(Err(ServiceError::BadRequest(NO_AUTHORIZATION_HEADER_MESSAGE.to_string())));
        },
    };
    let t = match crate::text::header_to_text(h) {
        Some(t) => t,
        None => {
            return Some(Err(ServiceError::InternalServerError));
        },
    };
    let token = match token_after_scheme(t.as_slice()) {
        Some(token) => token,
        None => {
            return Some(Err(ServiceError::Unauthorized));
        },
    };
    let token = crate::text::string_from(token.as_slice());
    let checked = validate_token(token.as_str(), key);
    let ghost checked_view = checked;
    let r = uid_from_checked(checked);
    proof {
        assert forall|user: u128| session_token_of(token@, key@, user) implies (r == Some(
            Ok::<u128, ServiceError>(user),
        ) || uid_view(r) == Some(Err::<u128, ServiceErrorView>(ServiceErrorView::Unauthorized))) by {
            let (iat, exp, name) = choose|iat: i64, exp: i64, name: Seq<char>|
                token@ == #[trigger] signed_token(session_json(uuid_text(user), iat as int, exp as int, name), key@);
            if checked_view is Ok {
                let c = checked_view->Ok_0;
                assert(crate::session_token::reads_back(token@, key@, c));
                assert(claims_view(c) == (uuid_text(user), iat as int, exp as int, name));
            }
        }
    }
    r
}

} // verus!

//! The authentication check run before every request: public routes and
//! pre-flight probes pass anonymously; every other request needs a bearer
//! token that decodes to an existing user, or it is rejected before any
//! handler runs.

use vstd::prelude::*;

use crate::error::AppError;
use crate::model::User;
use crate::store::{Store, has_user, user_of};
use crate::token::{Claims, TokenError, claims_result, decode, decoded_fields};

verus! {

/// The header that carries the bearer token.
pub const AUTHORIZATION: &'static str = "Authorization";

/// Route prefixes reachable without a token.
pub const TAGS_ROUTE: &'static str = "/api/tags";

pub const USERS_ROUTE: &'static str = "/api/users";

pub const LOGIN_ROUTE: &'static str = "/api/users/login";

/// The message of an unauthorized response.
pub const UNAUTHORIZED: &'static str = "Unauthorized";

/// What authentication decides for a request.
#[derive(Debug, Clone)]
pub enum AuthOutcome {
    /// A public route or a pre-flight probe: no identity attached.
    AllowedAnonymous,
    /// The token resolved to this user.
    AllowedAuthenticated(User),
    /// Answered with an unauthorized response; no handler runs.
    Rejected,
}

pub open spec fn starts_with(s: Seq<char>, p: Seq<char>) -> bool {
    p.len() <= s.len() && s.subrange(0, p.len() as int) == p
}

/// Whether a request passes without a token.
pub open spec fn skips_verify(is_options: bool, path: Seq<char>) -> bool {
    is_options || starts_with(path, TAGS_ROUTE@) || starts_with(path, USERS_ROUTE@)
        || starts_with(path, LOGIN_ROUTE@)
}

/// What follows a `bearer` or `Bearer` prefix of the header, if it has one.
pub open spec fn bearer_rest(h: Seq<char>) -> Option<Seq<char>> {
    if starts_with(h, "bearer"@) || starts_with(h, "Bearer"@) {
        Some(h.subrange(6, h.len() as int))
    } else {
        None
    }
}

/// Unicode `White_Space`, the characters `char::is_whitespace` accepts.
pub open spec fn is_white_space(c: char) -> bool {
    let u = c as u32;
    (0x09 <= u && u <= 0x0d) || u == 0x20 || u == 0x85 || u == 0xa0 || u == 0x1680 || (0x2000 <= u
        && u <= 0x200a) || u == 0x2028 || u == 0x2029 || u == 0x202f || u == 0x205f || u == 0x3000
}

/// `s` without its leading white space.
pub open spec fn trim_start(s: Seq<char>) -> Seq<char>
    decreases s.len(),
{
    if s.len() > 0 && is_white_space(s[0]) {
        trim_start(s.drop_first())
    } else {
        s
    }
}

/// `s` without its trailing white space.
pub open spec fn trim_end(s: Seq<char>) -> Seq<char>
    decreases s.len(),
{
    if s.len() > 0 && is_white_space(s.last()) {
        trim_end(s.drop_last())
    } else {
        s
    }
}

/// `s` without leading and trailing white space, as `str::trim` gives it.
pub open spec fn trimmed(s: Seq<char>) -> Seq<char> {
    trim_end(trim_start(s))
}

fn white_space(c: char) -> (r: bool)
    ensures
        r == is_white_space(c),
{
    let u = c as u32;
    (0x09 <= u && u <= 0x0d) || u == 0x20 || u == 0x85 || u == 0xa0 || u == 0x1680 || (0x2000 <= u
        && u <= 0x200a) || u == 0x2028 || u == 0x2029 || u == 0x202f || u == 0x205f || u == 0x3000
}

/// `s` without leading and trailing white space.
pub fn trim(s: &str) -> (r: &str)
    ensures
        r@ == trimmed(s@),
{
    let n = s.unicode_len();
    let mut i: usize = 0;
    proof {
        assert(s@.subrange(0, n as int) =~= s@);
    }
    while i < n && white_space(s.get_char(i))
        invariant
            n == s@.len(),
            i <= n,
            trim_start(s@) == trim_start(s@.subrange(i as int, n as int)),
        decreases n - i,
    {
        proof {
            let t = s@.subrange(i as int, n as int);
            assert(t[0] == s@[i as int]);
            assert(t.drop_first() =~= s@.subrange(i + 1, n as int));
        }
        i = i + 1;
    }
    proof {
        let t = s@.subrange(i as int, n as int);
        if i < n {
            assert(t[0] == s@[i as int]);
        }
        assert(trim_start(s@) == t);
    }
    let mut j: usize = n;
    while j > i && white_space(s.get_char(j - 1))
        invariant
            n == s@.len(),
            i <= j <= n,
            trim_end(s@.subrange(i as int, n as int)) == trim_end(s@.subrange(i as int, j as int)),
        decreases j - i,
    {
        proof {
            let t = s@.subrange(i as int, j as int);
            assert(t.last() == s@[j - 1]);
            assert(t.drop_last() =~= s@.subrange(i as int, j - 1));
        }
        j = j - 1;
    }
    proof {
        let t = s@.subrange(i as int, j as int);
        if j > i {
            assert(t.last() == s@[j - 1]);
        }
        assert(trim_end(t) == t);
    }
    s.substring_char(i, j)
}

/// The identity a decoded claim resolves to.
pub open spec fn identity_outcome(s: Store, claims: Result<Claims, TokenError>) -> AuthOutcome {
    match claims {
        Err(_) => AuthOutcome::Rejected,
        Ok(c) => if has_user(s.users@, c.user_id) {
            AuthOutcome::AllowedAuthenticated(user_of(s.users@, c.user_id))
        } else {
            AuthOutcome::Rejected
        },
    }
}

pub open spec fn opt_view(o: Option<&str>) -> Option<Seq<char>> {
    match o {
        Some(s) => Some(s@),
        None => None,
    }
}

/// The authentication decision for a request.
pub open spec fn auth_outcome(
    s: Store,
    is_options: bool,
    path: Seq<char>,
    authorization: Option<Seq<char>>,
    key: Seq<u8>,
    now: i64,
) -> AuthOutcome {
    if skips_verify(is_options, path) {
        AuthOutcome::AllowedAnonymous
    } else {
        match authorization {
            None => AuthOutcome::Rejected,
            Some(h) => match bearer_rest(h) {
                None => AuthOutcome::Rejected,
                Some(rest) => identity_outcome(
                    s,
                    claims_result(decoded_fields(trimmed(rest), key), now),
                ),
            },
        }
    }
}

/// Whether `s` starts with `p`.
pub fn has_prefix(s: &str, p: &str) -> (r: bool)
    ensures
        r == starts_with(s@, p@),
{
    let n = s.unicode_len();
    let m = p.unicode_len();
    if m > n {
        return false;
    }
    let mut i: usize = 0;
    while i < m
        invariant
            m <= n,
            n == s@.len(),
            m == p@.len(),
            i <= m,
            forall|k: int| 0 <= k < i ==> s@[k] == p@[k],
        decreases m - i,
    {
        if s.get_char(i) != p.get_char(i) {
            proof {
                assert(s@.subrange(0, m as int)[i as int] != p@[i as int]);
            }
            return false;
        }
        i = i + 1;
    }
    proof {
        assert(s@.subrange(0, m as int) =~= p@);
    }
    true
}

/// Whether a request passes without a token: a pre-flight probe, or a
/// path under the tag listing, signup or login.
pub fn should_skip_verify(is_options: bool, path: &str) -> (r: bool)
    ensures
        r == skips_verify(is_options, path@),
{
    is_options || has_prefix(path, TAGS_ROUTE) || has_prefix(path, USERS_ROUTE) || has_prefix(
        path,
        LOGIN_ROUTE,
    )
}

/// The token of an authorization header: what follows a `bearer` or
/// `Bearer` prefix, trimmed.
pub fn bearer_token(header: &str) -> (r: Option<&str>)
    ensures
        match bearer_rest(header@) {
            None => r is None,
            Some(rest) => r matches Some(t) && t@ == trimmed(rest),
        },
{
    if has_prefix(header, "bearer") || has_prefix(header, "Bearer") {
        proof {
            reveal_strlit("bearer");
            reveal_strlit("Bearer");
        }
        let n = header.unicode_len();
        let rest = header.substring_char(6, n);
        Some(trim(rest))
    } else {
        None
    }
}

/// The authentication outcome for a decoded claim: the claim's user, when it exists.
pub fn resolve_identity(store: &Store, claims: Result<Claims, TokenError>) -> (r: AuthOutcome)
    requires
        store.wf(),
    ensures
        r == identity_outcome(*store, claims),
{
    match claims {
        Err(_) => AuthOutcome::Rejected,
        Ok(c) => match store.find_by_id(c.user_id) {
            Ok(u) => AuthOutcome::AllowedAuthenticated(u),
            Err(_) => AuthOutcome::Rejected,
        },
    }
}

/// The authentication decision for a request with this method, path and
/// authorization header, under `key` at time `now`.
pub fn authenticate(
    store: &Store,
    is_options: bool,
    path: &str,
    authorization: Option<&str>,
    key: &[u8],
    now: i64,
) -> (r: AuthOutcome)
    requires
        store.wf(),
    ensures
        r == auth_outcome(*store, is_options, path@, opt_view(authorization), key@, now),
{
    if should_skip_verify(is_options, path) {
        return AuthOutcome::AllowedAnonymous;
    }
    match authorization {
        None => AuthOutcome::Rejected,
        Some(h) => match bearer_token(h) {
            None => AuthOutcome::Rejected,
            Some(token) => resolve_identity(store, decode(token, key, now)),
        },
    }
}

/// The authentication configuration: the secret key tokens are signed with,
/// loaded once at start-up and read-only afterwards.
#[derive(Debug, Clone)]
pub struct Authentication {
    pub key: Vec<u8>,
}

impl Authentication {
    pub fn new(key: Vec<u8>) -> (r: Authentication)
        ensures
            r.key@ == key@,
    {
        Authentication { key }
    }

    /// The authentication decision for a request (see `authenticate`).
    pub fn check(&self, store: &Store, is_options: bool, path: &str, authorization: Option<&str>, now: i64) -> (r:
        AuthOutcome)
        requires
            store.wf(),
        ensures
            r == auth_outcome(*store, is_options, path@, opt_view(authorization), self.key@, now),
    {
        authenticate(store, is_options, path, authorization, self.key.as_slice(), now)
    }
}

/// The identity the authentication check attached to a request, for handlers that need one.
pub fn access_auth_user(outcome: &AuthOutcome) -> (r: Result<User, AppError>)
    ensures
        r == match *outcome {
            AuthOutcome::AllowedAuthenticated(u) => Ok(u),
            _ => Err::<User, AppError>(AppError::Unauthorized),
        },
{
    match outcome {
        AuthOutcome::AllowedAuthenticated(u) => Ok(u.copied()),
        _ => Err(AppError::Unauthorized),
    }
}

} // verus!

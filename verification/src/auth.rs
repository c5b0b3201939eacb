//! Identity handling around the authentication collaborator: the request
//! and claim shapes, bearer-token extraction, parsing of the identities a
//! verified token carries, and the classification of a login attempt.
//!
//! Token verification itself (signature, expiry) is the collaborator's
//! work and happens outside this crate; the hub receives its results as
//! plain values.

use vstd::prelude::*;
use crate::codec::dec_id;
use crate::decode::parse_id;
use crate::ids::Id;

verus! {

/// Credentials a client submits to log in.
pub struct LoginRequest {
    pub email: String,
    pub password: String,
}

/// Credentials a client submits to register an account.
pub struct RegisterRequest {
    pub email: String,
    pub password: String,
}

/// The claims of a verified bearer token.
pub struct Claims {
    pub sub: String,
    pub email: String,
    pub aud: String,
    pub exp: usize,
    pub iat: usize,
    pub role: Option<String>,
}

/// The authenticated caller of a request: the token's user, plus the
/// optional caller-supplied session correlation hint (not trusted for
/// authorization).
pub struct AuthUser {
    pub user_id: Id,
    pub email: String,
    pub audience: String,
    pub client_id: Id,
}

/// Why a caller's identity was rejected.
#[derive(Clone, Copy, PartialEq, Eq, Structural, Debug)]
pub enum AuthError {
    InvalidUserId,
}

/// `Bearer ` — the prefix of an authorization header value.
pub open spec fn bearer_prefix() -> Seq<u8> {
    seq![66u8, 101u8, 97u8, 114u8, 101u8, 114u8, 32u8]
}

/// Whether a header value is a bearer credential.
pub open spec fn is_bearer(h: Seq<u8>) -> bool {
    h.len() >= 7 && h.subrange(0, 7) == bearer_prefix()
}

/// The identity a byte string denotes: it must be exactly one hyphenated
/// hexadecimal identity of 36 bytes.
pub open spec fn id_of_bytes(s: Seq<u8>) -> Option<Id> {
    if s.len() == 36 {
        match dec_id(s, 0) {
            Some((id, _)) => Some(id),
            None => None,
        }
    } else {
        None
    }
}

/// The token of an authorization header value: what follows `Bearer `, or
/// nothing when the value has another shape.
pub fn bearer_token(header: &Vec<u8>) -> (r: Option<Vec<u8>>)
    ensures
        (match r {
            Some(tk) => is_bearer(header@) && tk@ == header@.skip(7),
            None => !is_bearer(header@),
        }),
{
    if header.len() < 7 {
        return None;
    }
    let prefix: [u8; 7] = [66, 101, 97, 114, 101, 114, 32];
    let mut k: usize = 0;
    while k < 7
        invariant
            k <= 7,
            header@.len() >= 7,
            prefix@ == bearer_prefix(),
            forall|t: int| 0 <= t < k ==> header@[t] == bearer_prefix()[t],
        decreases 7 - k,
    {
        if header[k] != prefix[k] {
            proof {
                assert(header@.subrange(0, 7)[k as int] == header@[k as int]);
            }
            return None;
        }
        k += 1;
    }
    proof {
        assert(header@.subrange(0, 7) =~= bearer_prefix());
    }
    let mut tk: Vec<u8> = Vec::new();
    let mut j: usize = 7;
    while j < header.len()
        invariant
            7 <= j <= header@.len(),
            tk@ == header@.subrange(7, j as int),
        decreases header@.len() - j,
    {
        tk.push(header[j]);
        proof {
            assert(header@.subrange(7, j + 1) =~= header@.subrange(7, j as int).push(
                header@[j as int],
            ));
        }
        j += 1;
    }
    proof {
        assert(header@.subrange(7, header@.len() as int) =~= header@.skip(7));
    }
    Some(tk)
}

/// The identity a byte string denotes, if any.
pub fn parse_identity(s: &Vec<u8>) -> (r: Option<Id>)
    ensures
        r == id_of_bytes(s@),
{
    if s.len() != 36 {
        return None;
    }
    match parse_id(s.as_slice(), 0) {
        Some((id, _)) => Some(id),
        None => None,
    }
}

/// The session hint a caller supplied, or the nil identity when the
/// header is absent or not an identity.
pub fn client_id_hint(header: Option<&Vec<u8>>) -> (r: Id)
    ensures
        r == (match header {
            Some(h) => match id_of_bytes(h@) {
                Some(id) => id,
                None => Id(0),
            },
            None => Id(0),
        }),
{
    match header {
        Some(h) => match parse_identity(h) {
            Some(id) => id,
            None => Id::nil(),
        },
        None => Id::nil(),
    }
}

/// Builds the authenticated caller from a verified token's claims: the
/// subject must be a user identity, and the optional caller-supplied
/// correlation header becomes the session hint, nil when absent or
/// malformed.
pub fn make_auth_user(
    sub: &Vec<u8>,
    email: String,
    audience: String,
    hint: Option<&Vec<u8>>,
) -> (r: Result<AuthUser, AuthError>)
    ensures
        (match id_of_bytes(sub@) {
            Some(uid) => r matches Ok(u) && u.user_id == uid && u.email == email && u.audience
                == audience && u.client_id == (match hint {
                Some(h) => match id_of_bytes(h@) {
                    Some(id) => id,
                    None => Id(0),
                },
                None => Id(0),
            }),
            None => r == Err::<AuthUser, AuthError>(AuthError::InvalidUserId),
        }),
{
    let user_id = match parse_identity(sub) {
        Some(id) => id,
        None => {
            return Err(AuthError::InvalidUserId);
        },
    };
    let client_id = client_id_hint(hint);
    Ok(AuthUser { user_id, email, audience, client_id })
}

/// What a login attempt came to, as the authentication collaborator
/// reported it.
#[derive(Clone, Copy, PartialEq, Eq, Structural, Debug)]
pub enum LoginOutcome {
    /// The collaborator granted an access token.
    TokenGranted,
    /// The collaborator answered without an access token.
    NoToken,
    /// The collaborator's answer could not be parsed.
    ParseFailed,
    /// The collaborator could not be reached.
    ConnectFailed,
}

/// The status code a login attempt is answered with: success grants 200,
/// missing credentials 401, and a failing collaborator 500.
pub fn login_status(outcome: LoginOutcome) -> (r: u16)
    ensures
        r == (match outcome {
            LoginOutcome::TokenGranted => 200u16,
            LoginOutcome::NoToken => 401u16,
            LoginOutcome::ParseFailed => 500u16,
            LoginOutcome::ConnectFailed => 500u16,
        }),
{
    match outcome {
        LoginOutcome::TokenGranted => 200,
        LoginOutcome::NoToken => 401,
        LoginOutcome::ParseFailed => 500,
        LoginOutcome::ConnectFailed => 500,
    }
}

} // verus!

use vstd::prelude::*;

use crate::error::ApiError;

verus! {

/// Byte length of a bearer token.
pub const BEARER_TOKEN_LEN: usize = 28;

/// An authentication token as presented by a client.
#[derive(Debug, Clone, PartialEq, Eq, Hash)]
pub enum RawAuthToken {
    Bearer(Vec<u8>),
    Bot(Vec<u8>),
}

/// The mathematical value of a token: its kind and its bytes.
pub enum TokenView {
    Bearer(Seq<u8>),
    Bot(Seq<u8>),
}

impl View for RawAuthToken {
    type V = TokenView;

    open spec fn view(&self) -> TokenView {
        match self {
            RawAuthToken::Bearer(b) => TokenView::Bearer(b@),
            RawAuthToken::Bot(b) => TokenView::Bot(b@),
        }
    }
}

/// Byte-wise equality of two slices.
pub fn bytes_equal(a: &[u8], b: &[u8]) -> (eq: bool)
    ensures
        eq == (a@ == b@),
{
    if a.len() != b.len() {
        return false;
    }
    let n = a.len();
    let mut i: usize = 0;
    while i < n
        invariant
            n == a.len(),
            n == b.len(),
            i <= n,
            forall|j: int| 0 <= j < i ==> a@[j] == b@[j],
        decreases n - i,
    {
        if a[i] != b[i] {
            return false;
        }
        i = i + 1;
    }
    assert(a@ =~= b@);
    true
}

fn copy_bytes(v: &Vec<u8>) -> (c: Vec<u8>)
    ensures
        c@ == v@,
{
    let mut c: Vec<u8> = Vec::new();
    let n = v.len();
    let mut i: usize = 0;
    while i < n
        invariant
            n == v.len(),
            i <= n,
            c@ == v@.take(i as int),
        decreases n - i,
    {
        c.push(v[i]);
        assert(c@ =~= v@.take(i + 1));
        i = i + 1;
    }
    assert(v@.take(n as int) =~= v@);
    c
}

impl RawAuthToken {
    /// A copy of the token.
    pub fn duplicate(&self) -> (t: RawAuthToken)
        ensures
            t@ == self@,
    {
        match self {
            RawAuthToken::Bearer(b) => RawAuthToken::Bearer(copy_bytes(b)),
            RawAuthToken::Bot(b) => RawAuthToken::Bot(copy_bytes(b)),
        }
    }

    /// Whether two tokens are the same token.
    pub fn same_as(&self, other: &RawAuthToken) -> (eq: bool)
        ensures
            eq == (self@ == other@),
    {
        match (self, other) {
            (RawAuthToken::Bearer(a), RawAuthToken::Bearer(b)) => bytes_equal(a.as_slice(), b.as_slice()),
            (RawAuthToken::Bot(a), RawAuthToken::Bot(b)) => bytes_equal(a.as_slice(), b.as_slice()),
            _ => false,
        }
    }
}

/// Random bytes for a new bearer token, drawn from the thread-local generator of `rand`
/// (a cryptographically secure, periodically reseeded generator). Nothing is promised of
/// the bytes but their number, which the array type fixes.
#[verifier::external_body]
fn random_bearer_bytes() -> [u8; 28] {
    rand::random::<[u8; 28]>()
}

pub trait AuthTokenExt: Sized {
    fn random_bearer() -> Self;
}

impl AuthTokenExt for RawAuthToken {
    /// A fresh bearer token of `BEARER_TOKEN_LEN` random bytes.
    fn random_bearer() -> (t: Self)
        ensures
            t matches RawAuthToken::Bearer(b) && b@.len() == BEARER_TOKEN_LEN,
    {
        let bytes = random_bearer_bytes();
        let mut v: Vec<u8> = Vec::new();
        let mut i: usize = 0;
        while i < 28
            invariant
                i <= 28,
                v@.len() == i,
            decreases 28 - i,
        {
            v.push(bytes[i]);
            i = i + 1;
        }
        RawAuthToken::Bearer(v)
    }
}

/// An authenticated session.
pub struct Authorization {
    pub token: RawAuthToken,
    pub user_id: u64,
    /// Expiry time, in seconds since the UNIX epoch.
    pub expires: u64,
    /// Raw user flag bits.
    pub flags: i32,
}

impl Authorization {
    pub fn is_bot(&self) -> (b: bool)
        ensures
            b == (self.token is Bot),
    {
        match self.token {
            RawAuthToken::Bot(_) => true,
            RawAuthToken::Bearer(_) => false,
        }
    }
}

/// What a session lookup yields at time `now` (seconds since the UNIX epoch): the
/// session if one was found and it expires after `now`, otherwise `NoSession`.
pub fn check_session(found: Option<Authorization>, now: u64) -> (res: Result<Authorization, ApiError>)
    ensures
        match found {
            Some(auth) => if auth.expires > now {
                res matches Ok(a) && a == auth
            } else {
                res == Err::<Authorization, ApiError>(ApiError::NoSession)
            },
            None => res == Err::<Authorization, ApiError>(ApiError::NoSession),
        },
{
    match found {
        Some(auth) => {
            if auth.expires > now {
                Ok(auth)
            } else {
                Err(ApiError::NoSession)
            }
        },
        None => Err(ApiError::NoSession),
    }
}

/// Logging out ends a user session, so it takes a bearer token (`BadRequest` for a bot);
/// the result is the token's bytes, which name the session.
pub fn bearer_bytes(token: &RawAuthToken) -> (res: Result<&Vec<u8>, ApiError>)
    ensures
        match token {
            RawAuthToken::Bearer(b) => res matches Ok(r) && r@ == b@,
            RawAuthToken::Bot(_) => res == Err::<&Vec<u8>, ApiError>(ApiError::BadRequest),
        },
{
    match token {
        RawAuthToken::Bearer(b) => Ok(b),
        RawAuthToken::Bot(_) => Err(ApiError::BadRequest),
    }
}

/// When a new session expires: `duration` seconds after `now` (seconds since the UNIX epoch).
pub fn session_expires(now: u64, duration: u64) -> (expires: u64)
    requires
        now + duration <= u64::MAX,
    ensures
        expires == now + duration,
{
    now + duration
}

} // verus!

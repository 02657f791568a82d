use vstd::prelude::*;

use crate::auth::{Authorization, RawAuthToken, TokenView};

verus! {

/// The part of an authorization that the cache keeps beside its token.
#[derive(Debug, Clone, Copy, PartialEq, Eq, Structural)]
pub struct PartialAuthorization {
    pub user_id: u64,
    pub expires: u64,
    pub flags: i32,
}

/// The cached part of `auth`.
pub open spec fn partial_of(auth: Authorization) -> PartialAuthorization {
    PartialAuthorization { user_id: auth.user_id, expires: auth.expires, flags: auth.flags }
}

/// The sessions that survive `cleanup(now)`: those whose expiry lies before `now`.
pub open spec fn kept_at(m: Map<TokenView, PartialAuthorization>, now: u64) -> Map<
    TokenView,
    PartialAuthorization,
> {
    Map::new(|t: TokenView| m.contains_key(t) && m[t].expires < now, |t: TokenView| m[t])
}

/// The empty map of sessions.
pub open spec fn no_sessions() -> Map<TokenView, PartialAuthorization> {
    Map::empty()
}

/// The sessions a `scc::HashIndex` holds, by the view of their tokens.
pub uninterp spec fn session_entries(index: scc::HashIndex<RawAuthToken, PartialAuthorization, std::collections::hash_map::RandomState>) -> Map<
    TokenView,
    PartialAuthorization,
>;

/// An empty index of sessions.
///
/// Trusted: calls `scc::HashIndex::with_hasher` with a new `RandomState` of std; the index
/// starts empty.
#[verifier::external_body]
fn sessions_new() -> (index: scc::HashIndex<RawAuthToken, PartialAuthorization, std::collections::hash_map::RandomState>)
    ensures
        session_entries(index) == no_sessions(),
{
    scc::HashIndex::with_hasher(std::collections::hash_map::RandomState::new())
}

/// The session cached for `token`, if any.
///
/// Trusted: calls `scc::HashIndex::peek_with` with a reader that copies the value. Keys are
/// compared with the derived `Eq` and `Hash` of `RawAuthToken`, which compare the kind and
/// the bytes of a token, as its view does.
#[verifier::external_body]
fn sessions_peek(
    index: &scc::HashIndex<RawAuthToken, PartialAuthorization, std::collections::hash_map::RandomState>,
    token: &RawAuthToken,
) -> (found: Option<PartialAuthorization>)
    ensures
        found is Some <==> session_entries(*index).contains_key(token@),
        found is Some ==> found->0 == session_entries(*index)[token@],
{
    index.peek_with(token, |_, part| *part)
}

/// Inserts a session unless its token is in the index already.
///
/// Trusted: calls `scc::HashIndex::insert`, which refuses (and changes nothing) when the
/// key exists, and otherwise adds the pair.
#[verifier::external_body]
fn sessions_insert(
    index: &mut scc::HashIndex<RawAuthToken, PartialAuthorization, std::collections::hash_map::RandomState>,
    token: RawAuthToken,
    part: PartialAuthorization,
) -> (inserted: bool)
    ensures
        inserted == !session_entries(*old(index)).contains_key(token@),
        session_entries(*final(index)) == (if inserted {
            session_entries(*old(index)).insert(token@, part)
        } else {
            session_entries(*old(index))
        }),
{
    index.insert(token, part).is_ok()
}

/// Whether a session is kept by `cleanup(now)`.
fn session_kept(part: &PartialAuthorization, now: u64) -> (keep: bool)
    ensures
        keep == (part.expires < now),
{
    part.expires < now
}

/// Drops the sessions that `cleanup(now)` does not keep.
///
/// Trusted: calls `scc::HashIndex::retain` with a predicate that calls `session_kept`;
/// `retain` removes exactly the entries for which the predicate is false.
#[verifier::external_body]
fn sessions_retain(index: &mut scc::HashIndex<RawAuthToken, PartialAuthorization, std::collections::hash_map::RandomState>, now: u64)
    ensures
        session_entries(*final(index)) == kept_at(session_entries(*old(index)), now),
{
    index.retain(|_, part| session_kept(part, now));
}

/// Cache of user sessions, keyed by token.
pub struct SessionCache {
    map: scc::HashIndex<RawAuthToken, PartialAuthorization, std::collections::hash_map::RandomState>,
}

impl View for SessionCache {
    type V = Map<TokenView, PartialAuthorization>;

    closed spec fn view(&self) -> Map<TokenView, PartialAuthorization> {
        session_entries(self.map)
    }
}

impl SessionCache {
    pub fn default() -> (c: SessionCache)
        ensures
            c@ == no_sessions(),
    {
        SessionCache { map: sessions_new() }
    }

    /// The cached session of `token`, if any.
    pub fn get(&self, token: &RawAuthToken) -> (res: Option<Authorization>)
        ensures
            match res {
                Some(auth) => self@.contains_key(token@) && auth.token@ == token@ && partial_of(auth)
                    == self@[token@],
                None => !self@.contains_key(token@),
            },
    {
        match sessions_peek(&self.map, token) {
            Some(part) => Some(
                Authorization {
                    token: token.duplicate(),
                    user_id: part.user_id,
                    expires: part.expires,
                    flags: part.flags,
                },
            ),
            None => None,
        }
    }

    /// Caches `auth` unless its token is cached already (an existing entry is kept).
    pub fn set(&mut self, auth: Authorization)
        ensures
            old(self)@.contains_key(auth.token@) ==> final(self)@ == old(self)@,
            !old(self)@.contains_key(auth.token@) ==> final(self)@ == old(self)@.insert(
                auth.token@,
                partial_of(auth),
            ),
    {
        let part = PartialAuthorization { user_id: auth.user_id, expires: auth.expires, flags: auth.flags };
        let _ = sessions_insert(&mut self.map, auth.token, part);
    }

    /// Keeps the sessions whose expiry lies before `now` and drops the others.
    pub fn cleanup(&mut self, now: u64)
        ensures
            final(self)@ == kept_at(old(self)@, now),
    {
        sessions_retain(&mut self.map, now);
    }
}

/// A read after a write: once `set` caches a session for a token not cached yet, `get` on
/// that token serves it.
pub proof fn lemma_get_after_set(m: Map<TokenView, PartialAuthorization>, auth: Authorization)
    requires
        !m.contains_key(auth.token@),
    ensures
        m.insert(auth.token@, partial_of(auth)).contains_key(auth.token@),
        m.insert(auth.token@, partial_of(auth))[auth.token@] == partial_of(auth),
{
}

/// Cleaning up twice at the same moment keeps what cleaning up once keeps.
pub proof fn lemma_cleanup_idempotent(m: Map<TokenView, PartialAuthorization>, now: u64)
    ensures
        kept_at(kept_at(m, now), now) == kept_at(m, now),
{
    assert(kept_at(kept_at(m, now), now) =~= kept_at(m, now));
}

} // verus!

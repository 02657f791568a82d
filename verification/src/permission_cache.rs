use vstd::prelude::*;

use crate::permissions::Permissions;

verus! {

/// Cached permissions of one user in one room.
#[derive(Debug, Clone, Copy, PartialEq, Eq, Structural)]
pub struct PermMute {
    pub perms: Permissions,
    /// Room member flag bits.
    pub flags: i16,
}

/// What the cache holds for one user: the cached rooms and the number of live references
/// (gateway connections) that keep the entry fresh.
pub struct UserCacheView {
    pub rooms: Map<u64, PermMute>,
    pub rc: i64,
}

/// The rooms cached for one user, in a `hashbrown::HashMap`.
#[verifier::external_body]
pub struct RoomMap {
    map: hashbrown::HashMap<u64, PermMute, ahash::RandomState>,
}

/// The permissions a room map holds, by room.
pub uninterp spec fn room_entries(rooms: RoomMap) -> Map<u64, PermMute>;

/// The empty map of rooms.
pub open spec fn no_rooms() -> Map<u64, PermMute> {
    Map::empty()
}

/// An empty room map.
///
/// Trusted: calls `hashbrown::HashMap::with_hasher` with a new `ahash::RandomState`; the map
/// starts empty.
#[verifier::external_body]
fn rooms_new() -> (rooms: RoomMap)
    ensures
        room_entries(rooms) == no_rooms(),
{
    RoomMap { map: hashbrown::HashMap::with_hasher(ahash::RandomState::new()) }
}

/// The permissions cached for a room, if any.
///
/// Trusted: calls `hashbrown::HashMap::get` and copies the value found.
#[verifier::external_body]
fn rooms_get(rooms: &RoomMap, room_id: u64) -> (found: Option<PermMute>)
    ensures
        found is Some <==> room_entries(*rooms).contains_key(room_id),
        found is Some ==> found->0 == room_entries(*rooms)[room_id],
{
    rooms.map.get(&room_id).copied()
}

/// Caches permissions for a room, replacing any cached before.
///
/// Trusted: calls `hashbrown::HashMap::insert`, which sets the value of the key.
#[verifier::external_body]
fn rooms_insert(rooms: &mut RoomMap, room_id: u64, perm: PermMute)
    ensures
        room_entries(*final(rooms)) == room_entries(*old(rooms)).insert(room_id, perm),
{
    rooms.map.insert(room_id, perm);
}

/// The cache entry of one user.
pub struct UserCache {
    room: RoomMap,
    rc: i64,
}

/// The view of a user's cache entry.
pub closed spec fn user_view(c: UserCache) -> UserCacheView {
    UserCacheView { rooms: room_entries(c.room), rc: c.rc }
}

/// The entries a `scc::HashMap` of the cache holds, by user.
pub uninterp spec fn user_caches(map: scc::HashMap<u64, UserCache>) -> Map<u64, UserCache>;

/// The empty map of user entries.
pub open spec fn no_users() -> Map<u64, UserCache> {
    Map::empty()
}

/// An empty map of user entries.
///
/// Trusted: calls `scc::HashMap::with_hasher` with a new `RandomState` of std; the map starts
/// empty.
#[verifier::external_body]
fn users_new() -> (map: scc::HashMap<u64, UserCache>)
    ensures
        user_caches(map) == no_users(),
{
    scc::HashMap::with_hasher(std::collections::hash_map::RandomState::new())
}

/// Whether the map has an entry for the user.
///
/// Trusted: calls `scc::HashMap::contains`.
#[verifier::external_body]
fn users_contains(map: &scc::HashMap<u64, UserCache>, user_id: u64) -> (b: bool)
    ensures
        b == user_caches(*map).contains_key(user_id),
{
    map.contains(&user_id)
}

/// Takes the entry of a user out of the map, if there is one.
///
/// Trusted: calls `scc::HashMap::remove`, which removes the key and hands back its value.
#[verifier::external_body]
fn users_remove(map: &mut scc::HashMap<u64, UserCache>, user_id: u64) -> (taken: Option<UserCache>)
    ensures
        user_caches(*final(map)) == user_caches(*old(map)).remove(user_id),
        taken is Some <==> user_caches(*old(map)).contains_key(user_id),
        taken is Some ==> taken->0 == user_caches(*old(map))[user_id],
{
    map.remove(&user_id).map(|(_, cache)| cache)
}

/// Puts the entry of a user into the map, unless the user has one.
///
/// Trusted: calls `scc::HashMap::insert`, which refuses (and changes nothing) when the key
/// exists, and otherwise adds the pair.
#[verifier::external_body]
fn users_insert(map: &mut scc::HashMap<u64, UserCache>, user_id: u64, cache: UserCache) -> (inserted: bool)
    ensures
        inserted == !user_caches(*old(map)).contains_key(user_id),
        user_caches(*final(map)) == (if inserted {
            user_caches(*old(map)).insert(user_id, cache)
        } else {
            user_caches(*old(map))
        }),
{
    map.insert(user_id, cache).is_ok()
}

/// What `get` serves from a user's entry: nothing if it is stale, else the room's permissions.
pub closed spec fn served(c: UserCache, room_id: u64) -> Option<PermMute> {
    if c.rc > 0 && room_entries(c.room).contains_key(room_id) {
        Some(room_entries(c.room)[room_id])
    } else {
        None
    }
}

/// The permissions an entry serves for a room.
fn serve(cache: &UserCache, room_id: u64) -> (found: Option<PermMute>)
    ensures
        found == served(*cache, room_id),
{
    if cache.rc > 0 {
        rooms_get(&cache.room, room_id)
    } else {
        None
    }
}

/// Reads what the entry of a user serves for a room.
///
/// Trusted: calls `scc::HashMap::read` with a reader that calls `serve`; `read` hands the
/// reader the value of the key, if there is one.
#[verifier::external_body]
fn users_read(map: &scc::HashMap<u64, UserCache>, user_id: u64, room_id: u64) -> (found: Option<Option<PermMute>>)
    ensures
        found is Some <==> user_caches(*map).contains_key(user_id),
        found is Some ==> found->0 == served(user_caches(*map)[user_id], room_id),
{
    map.read(&user_id, |_, cache| serve(cache, room_id))
}

/// An entry with live references.
fn is_live(cache: &UserCache) -> (live: bool)
    ensures
        live == (cache.rc > 0),
{
    cache.rc > 0
}

/// Drops the entries of users without live references.
///
/// Trusted: calls `scc::HashMap::retain` with a predicate that calls `is_live`; `retain`
/// removes exactly the entries for which the predicate is false.
#[verifier::external_body]
fn users_retain_live(map: &mut scc::HashMap<u64, UserCache>)
    ensures
        user_caches(*final(map)) == Map::new(
            |u: u64| user_caches(*old(map)).contains_key(u) && user_caches(*old(map))[u].rc > 0,
            |u: u64| user_caches(*old(map))[u],
        ),
{
    map.retain(|_, cache| is_live(cache));
}

/// Per-user, per-room permission cache with reference counting. Entries of users without
/// live references are stale: they are never served and are dropped by `cleanup`.
pub struct PermissionCache {
    map: scc::HashMap<u64, UserCache>,
}

/// The entry a write goes to: the existing one, or a fresh entry with one reference.
pub open spec fn entry_or_fresh(m: Map<u64, UserCacheView>, user_id: u64) -> UserCacheView {
    if m.contains_key(user_id) {
        m[user_id]
    } else {
        UserCacheView { rooms: Map::empty(), rc: 1 }
    }
}

/// What `get` serves: the cached permissions, if the user's entry is fresh and holds the room.
pub open spec fn cached_perms(m: Map<u64, UserCacheView>, user_id: u64, room_id: u64) -> Option<
    PermMute,
> {
    if m.contains_key(user_id) && m[user_id].rc > 0 && m[user_id].rooms.contains_key(room_id) {
        Some(m[user_id].rooms[room_id])
    } else {
        None
    }
}

/// `rooms` after inserting `items` in order (a later pair for the same room wins).
pub open spec fn insert_all(rooms: Map<u64, PermMute>, items: Seq<(u64, PermMute)>) -> Map<
    u64,
    PermMute,
>
    decreases items.len(),
{
    if items.len() == 0 {
        rooms
    } else {
        insert_all(rooms, items.drop_last()).insert(items.last().0, items.last().1)
    }
}

/// The entries that survive `cleanup`: those with at least one live reference.
pub open spec fn live_entries(m: Map<u64, UserCacheView>) -> Map<u64, UserCacheView> {
    Map::new(|u: u64| m.contains_key(u) && m[u].rc > 0, |u: u64| m[u])
}

impl View for PermissionCache {
    type V = Map<u64, UserCacheView>;

    closed spec fn view(&self) -> Map<u64, UserCacheView> {
        Map::new(|u: u64| user_caches(self.map).contains_key(u), |u: u64| user_view(user_caches(self.map)[u]))
    }
}

impl PermissionCache {
    pub fn default() -> (c: PermissionCache)
        ensures
            c@ == Map::<u64, UserCacheView>::empty(),
    {
        let c = PermissionCache { map: users_new() };
        assert(c@ =~= Map::<u64, UserCacheView>::empty());
        c
    }

    pub fn has_user(&self, user_id: u64) -> (b: bool)
        ensures
            b == self@.contains_key(user_id),
    {
        users_contains(&self.map, user_id)
    }

    /// The cached permissions of `user_id` in `room_id`; `None` for an unknown user or room,
    /// and for a stale entry (no live references).
    pub fn get(&self, user_id: u64, room_id: u64) -> (res: Option<PermMute>)
        ensures
            res == cached_perms(self@, user_id, room_id),
    {
        match users_read(&self.map, user_id, room_id) {
            Some(found) => found,
            None => None,
        }
    }

    fn take_entry(&mut self, user_id: u64) -> (cache: UserCache)
        ensures
            final(self)@ == old(self)@.remove(user_id),
            user_view(cache) == entry_or_fresh(old(self)@, user_id),
    {
        let cache = match users_remove(&mut self.map, user_id) {
            Some(cache) => cache,
            None => UserCache { room: rooms_new(), rc: 1 },
        };
        assert(self@ =~= old(self)@.remove(user_id));
        cache
    }

    fn put_entry(&mut self, user_id: u64, cache: UserCache)
        requires
            !old(self)@.contains_key(user_id),
        ensures
            final(self)@ == old(self)@.insert(user_id, user_view(cache)),
    {
        let ghost c = cache;
        let _ = users_insert(&mut self.map, user_id, cache);
        assert(self@ =~= old(self)@.insert(user_id, user_view(c)));
    }

    /// Caches `perm` for `user_id` in `room_id`, creating the user's entry (with one
    /// reference) if there is none.
    pub fn set(&mut self, user_id: u64, room_id: u64, perm: PermMute)
        ensures
            final(self)@ == after_set(old(self)@, user_id, room_id, perm),
    {
        let mut cache = self.take_entry(user_id);
        rooms_insert(&mut cache.room, room_id, perm);
        self.put_entry(user_id, cache);
    }

    /// Caches every `(room_id, perm)` pair of `items` for `user_id`, in order, creating the
    /// user's entry (with one reference) if there is none.
    pub fn batch_set(&mut self, user_id: u64, items: Vec<(u64, PermMute)>)
        ensures
            final(self)@ == after_batch_set(old(self)@, user_id, items@),
    {
        let mut cache = self.take_entry(user_id);
        let ghost start = room_entries(cache.room);
        let n = items.len();
        let mut i: usize = 0;
        while i < n
            invariant
                n == items.len(),
                i <= n,
                room_entries(cache.room) == insert_all(start, items@.take(i as int)),
                self@ == old(self)@.remove(user_id),
                start == entry_or_fresh(old(self)@, user_id).rooms,
                cache.rc == entry_or_fresh(old(self)@, user_id).rc,
            decreases n - i,
        {
            let (room_id, perm) = items[i];
            rooms_insert(&mut cache.room, room_id, perm);
            assert(items@.take(i + 1).drop_last() =~= items@.take(i as int));
            i = i + 1;
        }
        assert(items@.take(n as int) =~= items@);
        self.put_entry(user_id, cache);
    }

    /// Adds a live reference to an existing entry. Returns true if and only if the entry
    /// existed and was not stale before the call.
    ///
    /// NOTE: May return false AND increment the reference count, so `remove_reference`
    /// must always be called after this.
    pub fn add_reference(&mut self, user_id: u64) -> (fresh: bool)
        ensures
            old(self)@.contains_key(user_id) ==> {
                &&& fresh == (old(self)@[user_id].rc > 0)
                &&& final(self)@ == old(self)@.insert(
                    user_id,
                    UserCacheView {
                        rooms: old(self)@[user_id].rooms,
                        rc: old(self)@[user_id].rc.wrapping_add(1),
                    },
                )
            },
            !old(self)@.contains_key(user_id) ==> !fresh && final(self)@ == old(self)@,
    {
        if !users_contains(&self.map, user_id) {
            return false;
        }
        let mut cache = self.take_entry(user_id);
        let fresh = cache.rc > 0;
        cache.rc = cache.rc.wrapping_add(1);
        self.put_entry(user_id, cache);
        fresh
    }

    /// Drops a live reference from an existing entry.
    pub fn remove_reference(&mut self, user_id: u64)
        ensures
            old(self)@.contains_key(user_id) ==> final(self)@ == old(self)@.insert(
                user_id,
                UserCacheView {
                    rooms: old(self)@[user_id].rooms,
                    rc: old(self)@[user_id].rc.wrapping_sub(1),
                },
            ),
            !old(self)@.contains_key(user_id) ==> final(self)@ == old(self)@,
    {
        if !users_contains(&self.map, user_id) {
            return ;
        }
        let mut cache = self.take_entry(user_id);
        cache.rc = cache.rc.wrapping_sub(1);
        self.put_entry(user_id, cache);
    }

    /// Cleanup any cache entries with no active users
    pub fn cleanup(&mut self)
        ensures
            final(self)@ == live_entries(old(self)@),
    {
        users_retain_live(&mut self.map);
        assert(self@ =~= live_entries(old(self)@));
    }
}

/// What `set` makes of the cache `m`.
pub open spec fn after_set(m: Map<u64, UserCacheView>, user_id: u64, room_id: u64, perm: PermMute) -> Map<
    u64,
    UserCacheView,
> {
    m.insert(
        user_id,
        UserCacheView {
            rooms: entry_or_fresh(m, user_id).rooms.insert(room_id, perm),
            rc: entry_or_fresh(m, user_id).rc,
        },
    )
}

/// The entries that refresh a user's cached permissions: for each row (a room and the two
/// words of the user's permissions in it), the room with those permissions and no member
/// flags, in order.
pub fn refreshed_perms(rows: &Vec<(u64, i64, i64)>) -> (items: Vec<(u64, PermMute)>)
    ensures
        items@.len() == rows@.len(),
        forall|i: int|
            0 <= i < rows@.len() ==> #[trigger] items@[i] == (
                rows@[i].0,
                PermMute { perms: Permissions { low: rows@[i].1, high: rows@[i].2 }, flags: 0 },
            ),
{
    let mut items: Vec<(u64, PermMute)> = Vec::new();
    let n = rows.len();
    let mut i: usize = 0;
    while i < n
        invariant
            n == rows@.len(),
            i <= n,
            items@.len() == i,
            forall|k: int|
                0 <= k < i ==> #[trigger] items@[k] == (
                    rows@[k].0,
                    PermMute { perms: Permissions { low: rows@[k].1, high: rows@[k].2 }, flags: 0 },
                ),
        decreases n - i,
    {
        let (room_id, low, high) = rows[i];
        items.push((room_id, PermMute { perms: Permissions::from_i64(low, high), flags: 0 }));
        i = i + 1;
    }
    items
}

/// What `batch_set` makes of the cache `m`: the user's entry (or a fresh one) with every
/// pair of `items` inserted in order.
pub open spec fn after_batch_set(m: Map<u64, UserCacheView>, user_id: u64, items: Seq<(u64, PermMute)>) -> Map<
    u64,
    UserCacheView,
> {
    m.insert(
        user_id,
        UserCacheView {
            rooms: insert_all(entry_or_fresh(m, user_id).rooms, items),
            rc: entry_or_fresh(m, user_id).rc,
        },
    )
}

/// `set` applied to each pair of `items` in order, starting from the cache `m`.
pub open spec fn set_each(m: Map<u64, UserCacheView>, user_id: u64, items: Seq<(u64, PermMute)>) -> Map<
    u64,
    UserCacheView,
>
    decreases items.len(),
{
    if items.len() == 0 {
        m
    } else {
        after_set(set_each(m, user_id, items.drop_last()), user_id, items.last().0, items.last().1)
    }
}

/// A batch is its pairs set one by one: `batch_set` leaves the cache as `set` does when
/// called for each pair in order (the one difference, for a user without an entry and no
/// pairs, is left out: `batch_set` then creates an empty entry).
pub proof fn lemma_batch_set_is_each_set(m: Map<u64, UserCacheView>, user_id: u64, items: Seq<(u64, PermMute)>)
    requires
        items.len() > 0 || m.contains_key(user_id),
    ensures
        after_batch_set(m, user_id, items) == set_each(m, user_id, items),
    decreases items.len(),
{
    if items.len() == 0 {
        assert(after_batch_set(m, user_id, items) =~= m);
    } else {
        let pre = items.drop_last();
        let e = entry_or_fresh(m, user_id);
        if pre.len() == 0 {
            assert(insert_all(e.rooms, pre) == e.rooms);
            assert(set_each(m, user_id, pre) == m);
            assert(insert_all(e.rooms, items) == e.rooms.insert(items.last().0, items.last().1));
            assert(after_batch_set(m, user_id, items) =~= set_each(m, user_id, items));
        } else {
            lemma_batch_set_is_each_set(m, user_id, pre);
            let mid = after_batch_set(m, user_id, pre);
            assert(entry_or_fresh(mid, user_id) == UserCacheView { rooms: insert_all(e.rooms, pre), rc: e.rc });
            assert(after_batch_set(m, user_id, items) =~= after_set(mid, user_id, items.last().0, items.last().1));
        }
    }
}

/// A read after a write: once `set` caches permissions for a user whose entry is live (or
/// new), `get` serves them for that room, and serves what it served before for every other
/// user and room.
pub proof fn lemma_get_after_set(m: Map<u64, UserCacheView>, user_id: u64, room_id: u64, perm: PermMute)
    requires
        entry_or_fresh(m, user_id).rc > 0,
    ensures
        cached_perms(after_set(m, user_id, room_id, perm), user_id, room_id) == Some(perm),
        forall|u: u64, r: u64| (u != user_id || r != room_id) ==> #[trigger] cached_perms(after_set(m, user_id, room_id, perm), u, r)
            == cached_perms(m, u, r),
{
    let n = after_set(m, user_id, room_id, perm);
    assert forall|u: u64, r: u64| (u != user_id || r != room_id) implies #[trigger] cached_perms(n, u, r) == cached_perms(m, u, r) by {
        if u == user_id && !m.contains_key(user_id) {
            assert(!entry_or_fresh(m, user_id).rooms.contains_key(r));
        }
    }
}

/// A stale entry, with no live reference, is never served.
pub proof fn lemma_stale_not_served(m: Map<u64, UserCacheView>, user_id: u64, room_id: u64)
    requires
        m.contains_key(user_id),
        m[user_id].rc <= 0,
    ensures
        cached_perms(m, user_id, room_id) is None,
{
}

/// `cleanup` drops every stale entry and changes nothing that `get` serves.
pub proof fn lemma_cleanup_keeps_served(m: Map<u64, UserCacheView>)
    ensures
        forall|u: u64| m.contains_key(u) && m[u].rc <= 0 ==> !#[trigger] live_entries(m).contains_key(u),
        forall|u: u64, r: u64| #[trigger] cached_perms(live_entries(m), u, r) == cached_perms(m, u, r),
{
}

/// What `add_reference` and then `remove_reference` make of an existing entry.
pub open spec fn with_rc(m: Map<u64, UserCacheView>, user_id: u64, rc: i64) -> Map<u64, UserCacheView> {
    m.insert(user_id, UserCacheView { rooms: m[user_id].rooms, rc })
}

/// Taking a reference and giving it back leaves the cache as it was.
pub proof fn lemma_reference_round_trip(m: Map<u64, UserCacheView>, user_id: u64)
    requires
        m.contains_key(user_id),
    ensures
        with_rc(with_rc(m, user_id, m[user_id].rc.wrapping_add(1)), user_id, m[user_id].rc.wrapping_add(1).wrapping_sub(1)) == m,
{
    let rc = m[user_id].rc;
    assert(rc.wrapping_add(1).wrapping_sub(1) == rc) by (bit_vector);
    assert(with_rc(with_rc(m, user_id, rc.wrapping_add(1)), user_id, rc) =~= m);
}

} // verus!

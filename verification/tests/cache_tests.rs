use lantern_backend::auth::{bearer_bytes, check_session, AuthTokenExt, Authorization, RawAuthToken, BEARER_TOKEN_LEN};
use lantern_backend::error::ApiError;
use lantern_backend::permission_cache::{refreshed_perms, PermMute, PermissionCache};
use lantern_backend::permissions::Permissions;
use lantern_backend::session_cache::SessionCache;

fn pm(low: i64) -> PermMute {
    PermMute { perms: Permissions::from_i64(low, 0), flags: 0 }
}

#[test]
fn permission_cache_get_after_set() {
    let mut cache = PermissionCache::default();
    assert!(!cache.has_user(1));
    assert_eq!(cache.get(1, 10), None);
    cache.set(1, 10, pm(5));
    assert!(cache.has_user(1));
    assert_eq!(cache.get(1, 10), Some(pm(5)));
    assert_eq!(cache.get(1, 11), None);
    assert_eq!(cache.get(2, 10), None);
    cache.set(1, 10, pm(7));
    assert_eq!(cache.get(1, 10), Some(pm(7)));
}

#[test]
fn permission_cache_batch_set_later_wins() {
    let mut cache = PermissionCache::default();
    cache.batch_set(3, vec![(1, pm(1)), (2, pm(2)), (1, pm(9))]);
    assert_eq!(cache.get(3, 1), Some(pm(9)));
    assert_eq!(cache.get(3, 2), Some(pm(2)));
}

#[test]
fn permission_cache_batch_equals_each_set() {
    let items = vec![(1, pm(1)), (2, pm(2)), (1, pm(9))];
    let mut batched = PermissionCache::default();
    batched.batch_set(3, items.clone());
    let mut each = PermissionCache::default();
    for (room_id, perm) in items {
        each.set(3, room_id, perm);
    }
    for room_id in 0..4 {
        assert_eq!(batched.get(3, room_id), each.get(3, room_id));
    }
    // both start the entry with one reference
    assert!(batched.add_reference(3));
    assert!(each.add_reference(3));
}

#[test]
fn permission_cache_references_and_cleanup() {
    let mut cache = PermissionCache::default();
    // no entry: nothing to reference
    assert!(!cache.add_reference(1));
    cache.set(1, 10, pm(5));
    // a new entry starts with one reference
    assert!(cache.add_reference(1));
    cache.remove_reference(1);
    cache.remove_reference(1);
    // stale: not served
    assert_eq!(cache.get(1, 10), None);
    assert!(cache.has_user(1));
    // a stale entry is revived by a reference, but reported as not fresh
    assert!(!cache.add_reference(1));
    assert_eq!(cache.get(1, 10), Some(pm(5)));
    cache.remove_reference(1);
    cache.set(2, 20, pm(6));
    cache.cleanup();
    assert!(!cache.has_user(1));
    assert!(cache.has_user(2));
    assert_eq!(cache.get(2, 20), Some(pm(6)));
}

fn auth(token: RawAuthToken, user_id: u64, expires: u64) -> Authorization {
    Authorization { token, user_id, expires, flags: 0 }
}

#[test]
fn session_cache_get_after_set() {
    let mut cache = SessionCache::default();
    let token = RawAuthToken::Bearer(vec![1, 2, 3]);
    assert!(cache.get(&token).is_none());
    cache.set(auth(RawAuthToken::Bearer(vec![1, 2, 3]), 42, 100));
    let got = cache.get(&token).unwrap();
    assert_eq!(got.user_id, 42);
    assert_eq!(got.expires, 100);
    assert!(got.token.same_as(&token));
    // a bot token with the same bytes is another token
    assert!(cache.get(&RawAuthToken::Bot(vec![1, 2, 3])).is_none());
}

#[test]
fn session_cache_set_keeps_existing() {
    let mut cache = SessionCache::default();
    cache.set(auth(RawAuthToken::Bearer(vec![7]), 1, 50));
    cache.set(auth(RawAuthToken::Bearer(vec![7]), 2, 60));
    let got = cache.get(&RawAuthToken::Bearer(vec![7])).unwrap();
    assert_eq!(got.user_id, 1);
    assert_eq!(got.expires, 50);
}

#[test]
fn session_cache_cleanup_keeps_those_expiring_before_now() {
    let mut cache = SessionCache::default();
    cache.set(auth(RawAuthToken::Bearer(vec![1]), 1, 50));
    cache.set(auth(RawAuthToken::Bearer(vec![2]), 2, 150));
    cache.cleanup(100);
    assert!(cache.get(&RawAuthToken::Bearer(vec![1])).is_some());
    assert!(cache.get(&RawAuthToken::Bearer(vec![2])).is_none());
}

#[test]
fn check_session_expiry() {
    let a = auth(RawAuthToken::Bearer(vec![1]), 5, 100);
    assert_eq!(check_session(Some(a), 99).unwrap().user_id, 5);
    let a = auth(RawAuthToken::Bearer(vec![1]), 5, 100);
    assert_eq!(check_session(Some(a), 100).err(), Some(ApiError::NoSession));
    assert_eq!(check_session(None, 0).err(), Some(ApiError::NoSession));
}

#[test]
fn random_bearer_tokens() {
    let t = RawAuthToken::random_bearer();
    match &t {
        RawAuthToken::Bearer(b) => assert_eq!(b.len(), BEARER_TOKEN_LEN),
        RawAuthToken::Bot(_) => panic!("expected a bearer token"),
    }
    let u = RawAuthToken::random_bearer();
    // 224 random bits: two tokens differ
    assert!(!t.same_as(&u));
    assert!(t.same_as(&t.duplicate()));
}

#[test]
fn is_bot_and_logout_token() {
    let bot = auth(RawAuthToken::Bot(vec![9]), 1, 0);
    assert!(bot.is_bot());
    assert_eq!(bearer_bytes(&bot.token).err(), Some(ApiError::BadRequest));
    let user = auth(RawAuthToken::Bearer(vec![4, 5]), 1, 0);
    assert!(!user.is_bot());
    assert_eq!(bearer_bytes(&user.token).unwrap(), &vec![4u8, 5]);
}

#[test]
fn permission_refresh_rows_become_entries() {
    let rows = vec![(10, 5, 0), (11, 0, 7)];
    let items = refreshed_perms(&rows);
    assert_eq!(
        items,
        vec![
            (10, PermMute { perms: Permissions::from_i64(5, 0), flags: 0 }),
            (11, PermMute { perms: Permissions::from_i64(0, 7), flags: 0 }),
        ]
    );
    let mut cache = PermissionCache::default();
    cache.batch_set(4, items);
    assert_eq!(cache.get(4, 11), Some(PermMute { perms: Permissions::from_i64(0, 7), flags: 0 }));
    assert!(refreshed_perms(&vec![]).is_empty());
}

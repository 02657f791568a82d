use lantern_backend::account::deleted_username;
use lantern_backend::auth::session_expires;
use lantern_backend::emotes::{distinct_emote_ids, find_emote_refs, rewrite_emotes, EmoteSpan, UsableEmote};
use lantern_backend::error::ApiError;
use lantern_backend::login::retire_backup_code;

/// The spans of `name:id` inside each `<:name:id>` of `text`.
fn spans_of(text: &str) -> Vec<EmoteSpan> {
    let mut spans = Vec::new();
    let mut from = 0;
    while let Some(open) = text[from..].find("<:") {
        let start = from + open + 2;
        let close = start + text[start..].find('>').unwrap();
        spans.push(EmoteSpan { start, end: close });
        from = close + 1;
    }
    spans
}

#[test]
fn emotes_rewritten_by_what_is_usable() {
    let text = "hi <:smile:123> and <:x:abc> <:old:45>!";
    let spans = spans_of(text);
    assert_eq!(spans.len(), 3);
    let refs = find_emote_refs(text.as_bytes(), &spans);
    assert_eq!(refs.len(), 2);
    assert_eq!(refs[0].id, 123);
    assert_eq!(refs[1].id, 45);
    assert_eq!(distinct_emote_ids(&refs).to_vec(), vec![45, 123]);
    let usable = vec![UsableEmote { name: b"grin".to_vec(), id: 123 }];
    let out = rewrite_emotes(text.as_bytes(), &refs, &usable);
    assert_eq!(String::from_utf8(out).unwrap(), "hi <:grin:123> and <:x:abc> :old:!");
}

#[test]
fn emote_ids_parse_like_snowflakes() {
    let text = "<:a:0> <:b:+7> <:c:18446744073709551615> <:d:18446744073709551616> <:e:> <:f:1:2> <:g>";
    let refs = find_emote_refs(text.as_bytes(), &spans_of(text));
    let ids: Vec<u64> = refs.iter().map(|r| r.id).collect();
    assert_eq!(ids, vec![7, u64::MAX]);
    assert_eq!(distinct_emote_ids(&refs).to_vec(), vec![7, u64::MAX]);
    let out = rewrite_emotes(text.as_bytes(), &refs, &vec![]);
    assert_eq!(
        String::from_utf8(out).unwrap(),
        "<:a:0> :b: :c: <:d:18446744073709551616> <:e:> <:f:1:2> <:g>"
    );
}

#[test]
fn no_emotes_leaves_message_unchanged() {
    let text = "plain text";
    let refs = find_emote_refs(text.as_bytes(), &vec![]);
    assert!(refs.is_empty());
    assert_eq!(rewrite_emotes(text.as_bytes(), &refs, &vec![]), text.as_bytes().to_vec());
}

#[test]
fn repeated_emotes_share_ids() {
    let text = "<:a:5><:a:5> <:b:3>";
    let refs = find_emote_refs(text.as_bytes(), &spans_of(text));
    assert_eq!(distinct_emote_ids(&refs).to_vec(), vec![3, 5]);
    let usable = vec![UsableEmote { name: b"A".to_vec(), id: 5 }, UsableEmote { name: b"B".to_vec(), id: 5 }];
    let out = rewrite_emotes(text.as_bytes(), &refs, &usable);
    assert_eq!(String::from_utf8(out).unwrap(), "<:A:5><:A:5> :b:");
}

#[test]
fn backup_codes_are_used_once() {
    let mut backups = vec![11, 22, 33];
    assert_eq!(retire_backup_code(&mut backups, 44), Err(ApiError::InvalidCredentials));
    assert_eq!(backups, vec![11, 22, 33]);
    assert_eq!(retire_backup_code(&mut backups, 22), Ok(1));
    assert_eq!(backups[0], 11);
    assert_eq!(backups[2], 33);
    assert_eq!(backups.len(), 3);
}

#[test]
fn deleted_user_names() {
    let name = deleted_username();
    assert_eq!(name.len(), 22);
    assert!(name.starts_with("DeletedUser "));
    assert!(name[12..].chars().all(|c| c.is_ascii_alphanumeric()));
}

#[test]
fn sessions_expire_after_their_duration() {
    assert_eq!(session_expires(1000, 60), 1060);
}

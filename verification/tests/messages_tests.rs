use lantern_backend::error::ApiError;
use lantern_backend::messages::{
    attachment_changes, check_attach, check_author, check_new_attachments, check_not_empty, check_send,
    collect_attachments, collect_reactions, content_changed, delete_outcome, delete_param_count, plan_delete,
    same_text, stored_content, wants_embeds, AttachmentMeta, DeleteMode, Mentions, RawReaction, ReactionKey,
    RoomAccess,
};

fn access(read: bool, send: bool, attach: bool, embed: bool, manage: bool, edit_new: bool) -> RoomAccess {
    RoomAccess {
        read_history: read,
        send_messages: send,
        attach_files: attach,
        embed_links: embed,
        manage_messages: manage,
        edit_new_attachment: edit_new,
    }
}

#[test]
fn delete_plans() {
    assert_eq!(plan_delete(None), Ok(DeleteMode::WithPerms));
    assert_eq!(plan_delete(Some(access(false, true, true, true, true, true))), Err(ApiError::Unauthorized));
    assert_eq!(plan_delete(Some(access(true, false, false, false, true, false))), Ok(DeleteMode::WithoutPerms));
    assert_eq!(plan_delete(Some(access(true, false, false, false, false, false))), Ok(DeleteMode::IfOwn));
    assert_eq!(delete_param_count(DeleteMode::WithoutPerms), 1);
    assert_eq!(delete_param_count(DeleteMode::IfOwn), 2);
    assert_eq!(delete_param_count(DeleteMode::WithPerms), 3);
    assert_eq!(delete_outcome(1), Ok(()));
    assert_eq!(delete_outcome(0), Err(ApiError::Unauthorized));
    assert_eq!(delete_outcome(2), Err(ApiError::Unauthorized));
}

#[test]
fn create_message_checks() {
    assert_eq!(check_send(None), Ok(()));
    assert_eq!(check_send(Some(access(true, false, true, true, true, true))), Err(ApiError::Unauthorized));
    assert_eq!(check_send(Some(access(true, true, false, false, false, false))), Ok(()));
    assert_eq!(check_not_empty(0, 0), Err(ApiError::BadRequest));
    assert_eq!(check_not_empty(0, 1), Ok(()));
    assert_eq!(check_not_empty(3, 0), Ok(()));
    let no_attach = access(true, true, false, true, false, false);
    assert_eq!(check_attach(no_attach, 1), Err(ApiError::Unauthorized));
    assert_eq!(check_attach(no_attach, 0), Ok(()));
    assert!(wants_embeds(no_attach, 5));
    assert!(!wants_embeds(no_attach, 0));
    assert!(!wants_embeds(access(true, true, true, false, false, false), 5));
    assert_eq!(stored_content(String::new()), None);
    assert_eq!(stored_content("hi".to_string()), Some("hi".to_string()));
}

#[test]
fn edit_checks() {
    assert_eq!(check_author(4, 4), Ok(()));
    assert_eq!(check_author(4, 5), Err(ApiError::Unauthorized));
    let (mut added, mut removed) = attachment_changes(Some(vec![1, 2, 3]), &vec![3, 4, 4, 5]);
    added.sort();
    removed.sort();
    assert_eq!(added, vec![4, 5]);
    assert_eq!(removed, vec![1, 2]);
    let (added, removed) = attachment_changes(Some(vec![2, 1]), &vec![1, 2, 2]);
    assert!(added.is_empty() && removed.is_empty());
    let (added, removed) = attachment_changes(None, &vec![9]);
    assert_eq!(added, vec![9]);
    assert!(removed.is_empty());
    assert_eq!(check_new_attachments(access(true, true, true, true, true, false), 1), Err(ApiError::Unauthorized));
    assert_eq!(check_new_attachments(access(true, true, true, true, true, false), 0), Ok(()));
    assert_eq!(check_new_attachments(access(true, true, true, true, true, true), 2), Ok(()));
    assert!(!content_changed(Some("same"), "same"));
    assert!(content_changed(Some("old"), "new"));
    assert!(!content_changed(None, ""));
    assert!(content_changed(None, "x"));
    assert!(content_changed(Some(""), "x"));
    assert!(same_text("héllo", "héllo"));
    assert!(!same_text("héllo", "hello"));
}

#[test]
fn mentions_by_kind() {
    let mut m = Mentions::new();
    assert_eq!(m.append(&vec![1, 2, 3, 1], &vec![10, 20, 30, 11]), Ok(()));
    assert_eq!(m.users, vec![10, 11]);
    assert_eq!(m.roles, vec![20]);
    assert_eq!(m.rooms, vec![30]);
    // appended again, as the plain listing does
    assert_eq!(m.append(&vec![3], &vec![31]), Ok(()));
    assert_eq!(m.rooms, vec![30, 31]);
    assert_eq!(m.append(&vec![1, 2], &vec![1]), Err(ApiError::InternalError));
    assert_eq!(m.users, vec![10, 11]);
}

fn meta(id: u64, flags: Option<i16>) -> AttachmentMeta {
    AttachmentMeta {
        id,
        size: 12,
        flags,
        name: format!("file{id}.png"),
        mime: Some("image/png".to_string()),
        width: Some(3),
        height: None,
    }
}

#[test]
fn attachments_skip_orphans_and_encode_previews() {
    let metas = vec![meta(1, None), meta(2, Some(0b101)), meta(3, Some(0b001))];
    let previews = vec![Some(vec![0x86, 0x4F, 0xD2, 0x6F, 0xB5, 0x59, 0xF7, 0x5B]), None, Some(vec![])];
    let files = collect_attachments(&metas, &previews, 0b100).unwrap();
    assert_eq!(files.len(), 2);
    assert_eq!(files[0].id, 1);
    assert_eq!(files[0].filename, "file1.png");
    assert_eq!(files[0].size, 12);
    assert_eq!(files[0].mime.as_deref(), Some("image/png"));
    assert_eq!(files[0].width, Some(3));
    assert_eq!(files[0].preview.as_deref(), Some("HelloWorld"));
    assert_eq!(files[1].id, 3);
    assert_eq!(files[1].preview.as_deref(), Some(""));
    assert_eq!(collect_attachments(&metas, &vec![None], 0b100).err(), Some(ApiError::InternalError));
}

fn raw(emote: Option<u64>, emoji: Option<i32>, me: bool, count: i64) -> RawReaction {
    RawReaction { emote, emoji, me, count }
}

#[test]
fn reactions_skip_invalid_rows() {
    let rows = vec![
        raw(Some(5), None, true, 2),
        raw(None, Some(1), false, 1),
        raw(None, Some(2), false, 4),
        raw(Some(6), None, false, 0),
        raw(Some(7), Some(3), false, 1),
        raw(None, None, false, 1),
    ];
    let names = vec![None, Some("👍".to_string()), None, None, None, None];
    let shown = collect_reactions(&rows, &names);
    assert_eq!(shown.len(), 2);
    assert!(shown[0].me);
    assert_eq!(shown[0].count, 2);
    assert_eq!(shown[0].emote, ReactionKey::Emote(5));
    assert!(!shown[1].me);
    assert_eq!(shown[1].emote, ReactionKey::Emoji("👍".to_string()));
}

#[test]
fn listing_rows_read_mentions_twice() {
    let m = Mentions::of_listing_row(&vec![1, 3, 1], &vec![10, 20, 30]).unwrap();
    assert_eq!(m.users, vec![10, 30, 10, 30]);
    assert_eq!(m.roles, Vec::<u64>::new());
    assert_eq!(m.rooms, vec![20, 20]);
    assert_eq!(Mentions::of_listing_row(&vec![1], &vec![]), Err(ApiError::InternalError));
    let empty = Mentions::of_listing_row(&vec![], &vec![]).unwrap();
    assert!(empty.users.is_empty() && empty.roles.is_empty() && empty.rooms.is_empty());
}

use lantern_backend::account::{
    check_changed, check_credentials, check_mfa_token_given, check_registration, count_account_fields, friend_pair,
    is_noop_rename, member_visibility, relationship_pending, user_visibility, FriendPair, MemberVisibility,
    ModifyAccountForm, UserRelationship, UserVisibility,
};
use lantern_backend::embeds::{embed_needs_refresh, plan_embeds};
use lantern_backend::error::ApiError;
use lantern_backend::files::{
    check_file_mime, check_post_body, check_preview_valid, decode_preview, filesystem_status, upload_offset,
    FilePostBody, FilesystemStatus, UploadHead,
};
use lantern_backend::invite::{can_revoke_invite, can_view_metadata, invite_metadata, redeem_error, RedeemFailure};
use lantern_backend::login::LenRange;
use lantern_backend::oembed::{process_oembed, OEmbedFormat, OEmbedRequest, OEmbedResponse, OEmebedType};
use lantern_backend::party::{
    check_create_room, check_overwrites_inserted, check_party_name, new_party, next_party_position, room_statistics, Overwrite,
    PartyCreateForm, RawOverwrites, RoomStatistics, StatsRow,
};
use lantern_backend::permissions::{room_permissions, Permissions};
use lantern_backend::profile::{
    check_nickname, check_profile_saved, check_profile_texts, effective_profile, skip_unchanged, touches_assets,
    updated_columns, Nullable, ProfileBitMasks, ProfileColumns, RawProfile,
};
use lantern_backend::ready::group_by_party;
use lantern_backend::room::{
    check_add_reaction, check_remove_reaction, check_typing, reaction_added, EmoteOrEmojiId,
};

fn party_form(name: &str) -> PartyCreateForm {
    PartyCreateForm { name: name.to_string(), description: None, security: 0 }
}

fn account_form(new_username: Option<&str>, new_email: Option<&str>) -> ModifyAccountForm {
    ModifyAccountForm {
        password: "hunter22".to_string(),
        totp: None,
        new_username: new_username.map(|s| s.to_string()),
        new_email: new_email.map(|s| s.to_string()),
    }
}

fn post_body(mime: Option<&str>, preview: Option<&str>) -> FilePostBody {
    FilePostBody {
        filename: "a.png".to_string(),
        size: 10,
        mime: mime.map(|s| s.to_string()),
        width: None,
        height: None,
        preview: preview.map(|s| s.to_string()),
    }
}

fn ow(id: u64, allow: i64, deny: i64) -> Overwrite {
    Overwrite { id, allow: Permissions::from_i64(allow, 0), deny: Permissions::from_i64(0, deny) }
}

#[test]
fn raw_overwrites_sorted_and_pointless_dropped() {
    let raw = RawOverwrites::new(vec![ow(30, 1, 0), ow(10, 0, 2), ow(20, 0, 0), ow(10, 0, 2)]);
    assert_eq!(raw.id, vec![10, 30]);
    assert_eq!(raw.a1, vec![0, 1]);
    assert_eq!(raw.a2, vec![0, 0]);
    assert_eq!(raw.d1, vec![0, 0]);
    assert_eq!(raw.d2, vec![2, 0]);
    let empty = RawOverwrites::new(vec![]);
    assert!(empty.id.is_empty());
}

#[test]
fn room_and_party_checks() {
    let len = LenRange { start: 3, end: 10 };
    assert_eq!(check_create_room(len, "ab", Some((0, 0)), 5, 5), Err(ApiError::InvalidName));
    assert_eq!(check_create_room(len, "general", None, 5, 5), Err(ApiError::Unauthorized));
    assert_eq!(check_create_room(len, "general", Some((5, 1)), 5, 5), Err(ApiError::Unauthorized));
    assert_eq!(check_create_room(len, "general", Some((1, 5)), 5, 5), Err(ApiError::Unauthorized));
    assert_eq!(check_create_room(len, "general", Some((1, 1)), 5, 5), Ok(()));
    let raw = RawOverwrites::new(vec![ow(1, 1, 0)]);
    assert_eq!(check_overwrites_inserted(1, &raw), Ok(()));
    assert_eq!(check_overwrites_inserted(0, &raw), Err(ApiError::BadRequest));
    assert_eq!(check_party_name(len, &party_form("party")), Ok(()));
    assert_eq!(check_party_name(len, &party_form("a very long party name")), Err(ApiError::InvalidName));
    assert_eq!(check_party_name(len, &party_form("pa")), Err(ApiError::InvalidName));
    assert_eq!(check_party_name(len, &party_form("üüü")), Ok(()));
    assert_eq!(next_party_position(None), 0);
    assert_eq!(next_party_position(Some(4)), 5);
}

#[test]
fn invites() {
    assert_eq!(redeem_error(&RedeemFailure::Raised("user_banned".to_string())), Some(ApiError::BadRequest));
    assert_eq!(redeem_error(&RedeemFailure::Raised("invalid_invite".to_string())), Some(ApiError::NotFound));
    assert_eq!(redeem_error(&RedeemFailure::Raised("other".to_string())), None);
    assert_eq!(redeem_error(&RedeemFailure::UniqueViolation(Some("party_member_pk".to_string()))), Some(ApiError::Conflict));
    assert_eq!(redeem_error(&RedeemFailure::UniqueViolation(None)), None);
    assert_eq!(redeem_error(&RedeemFailure::Other), None);
    let manage = Permissions::from_i64(0b100, 0);
    assert!(!can_view_metadata(None, 1, 1, manage));
    assert!(can_view_metadata(Some((0, 0)), 1, 1, manage));
    assert!(can_view_metadata(Some((0b110, 0)), 2, 1, manage));
    assert!(!can_view_metadata(Some((0b011, 0)), 2, 1, manage));
    assert_eq!(invite_metadata(true, 7, Some(-1)), (Some(7), Some(65535)));
    assert_eq!(invite_metadata(true, 7, None), (Some(7), None));
    assert_eq!(invite_metadata(false, 7, Some(3)), (None, None));
    assert!(can_revoke_invite(1, 1, (0, 0), manage));
    assert!(can_revoke_invite(2, 1, (0b100, 0), manage));
    assert!(!can_revoke_invite(2, 1, (0b010, 0), manage));
}

fn profile(bits: i32, avatar: Option<u64>, nick: Option<&str>) -> RawProfile {
    RawProfile { bits, nick: nick.map(|s| s.to_string()), avatar, banner: None, status: None, bio: Some("bio".to_string()) }
}

#[test]
fn profiles() {
    assert_eq!(check_profile_texts(Nullable::Value("abc"), Nullable::Undefined, 3, 0), Ok(()));
    assert_eq!(check_profile_texts(Nullable::Value("abcd"), Nullable::Undefined, 3, 10), Err(ApiError::BadRequest));
    assert_eq!(check_profile_texts(Nullable::Null, Nullable::Value("ab"), 0, 1), Err(ApiError::BadRequest));
    assert!(touches_assets(Nullable::Null, Nullable::Undefined));
    assert!(!touches_assets(Nullable::Undefined, Nullable::Undefined));
    assert_eq!(skip_unchanged(Some(5), Nullable::Value(5)), Nullable::Undefined);
    assert_eq!(skip_unchanged(None, Nullable::Null), Nullable::Undefined);
    assert_eq!(skip_unchanged(Some(5), Nullable::Null), Nullable::Null);
    assert_eq!(skip_unchanged(None, Nullable::Value(6)), Nullable::Value(6));
    assert_eq!(check_nickname(false, Nullable::Value("nick")), Err(ApiError::Unauthorized));
    assert_eq!(check_nickname(false, Nullable::Null), Ok(()));
    assert_eq!(check_nickname(true, Nullable::Value("nick")), Ok(()));
    assert_eq!(check_profile_saved(0), Err(ApiError::InternalError));
    assert_eq!(check_profile_saved(1), Ok(()));
    assert_eq!(
        updated_columns(Nullable::Value(1), Nullable::Undefined, Nullable::Null, Nullable::Undefined, Nullable::Value("b")),
        ProfileColumns { avatar: true, banner: false, nick: true, status: false, bio: true }
    );
}

#[test]
fn effective_profiles() {
    let masks = ProfileBitMasks { avatar_roundness: 0x7F, override_color: 0x80, primary_color: 0xFF00 };
    let empty = effective_profile(None, None, masks);
    assert_eq!(empty, RawProfile { bits: 0, nick: None, avatar: None, banner: None, status: None, bio: None });
    let base = profile(0x1234, Some(1), Some("base"));
    assert_eq!(effective_profile(Some(profile(0x1234, Some(1), Some("base"))), None, masks), base);
    // party profile without avatar or color override: those bits come from the base profile
    let merged = effective_profile(Some(profile(0x3311, Some(1), Some("base"))), Some(profile(0x0022, None, None)), masks);
    assert_eq!(merged.bits, (0x3311 & 0x7F) | (0x3311 & 0xFF80));
    assert_eq!(merged.avatar, Some(1));
    assert_eq!(merged.nick.as_deref(), Some("base"));
    // party profile with both: its own bits
    let merged = effective_profile(Some(profile(0x3311, Some(1), Some("base"))), Some(profile(0x44A2, Some(2), Some("party"))), masks);
    assert_eq!(merged.bits, (0x44A2 & 0x7F) | (0x44A2 & 0xFF80));
    assert_eq!(merged.avatar, Some(2));
    assert_eq!(merged.nick.as_deref(), Some("party"));
}

#[test]
fn oembed_answers() {
    assert_eq!(OEmbedFormat::default(), OEmbedFormat::Json);
    let d = OEmbedResponse::default();
    assert!(matches!(d.ty, OEmebedType::Link));
    assert_eq!((d.version, d.provider_name, d.provider_url, d.cache_age), ("1.0", "Lantern", "https://lantern.chat", 86400));
    let req = OEmbedRequest { url: Some("https://x".to_string()), maxwidth: None, maxheight: None, format: OEmbedFormat::XML };
    let r = process_oembed(&req);
    match &r.ty {
        OEmebedType::Photo { url, width, height } => {
            assert_eq!(url, "https://lantern.chat/static/assets/preview.png");
            assert_eq!((*width, *height), (1920, 955));
        }
        _ => panic!("expected a photo"),
    }
    assert_eq!(r.title.as_deref(), Some("Lantern Chat"));
    assert_eq!(r.thumbnail_url.as_deref(), Some("https://lantern.chat/static/assets/preview.png"));
    assert_eq!((r.thumbnail_width, r.thumbnail_height), (Some(1920), Some(955)));
    assert_eq!(r.cache_age, 86400);
}

#[test]
fn file_posts() {
    assert_eq!(check_file_mime(Some("text/plain")), Ok(()));
    assert_eq!(check_file_mime(Some("not a mime")), Err(ApiError::BadRequest));
    assert_eq!(check_file_mime(None), Ok(()));
    assert_eq!(decode_preview(None), Ok(None));
    assert_eq!(decode_preview(Some("HelloWorld")), Ok(Some(vec![0x86, 0x4F, 0xD2, 0x6F, 0xB5, 0x59, 0xF7, 0x5B])));
    assert_eq!(decode_preview(Some("abc")), Err(ApiError::InvalidPreview));
    assert_eq!(check_preview_valid(false), Err(ApiError::InvalidPreview));
    assert_eq!(check_preview_valid(true), Ok(()));
    assert_eq!(filesystem_status(true, 100, 10, Some(5)), FilesystemStatus { quota_used: 5, quota_total: 100 });
    assert_eq!(filesystem_status(false, 100, 10, None), FilesystemStatus { quota_used: 0, quota_total: 10 });
    assert_eq!(upload_offset(Some(77)), 77);
    assert_eq!(upload_offset(None), 0);
}

#[test]
fn file_post_bodies() {
    assert_eq!(check_post_body(&post_body(None, None)), Ok(None));
    assert_eq!(check_post_body(&post_body(Some("image/png"), None)), Ok(None));
    assert_eq!(check_post_body(&post_body(Some("bad mime"), Some("abc"))), Err(ApiError::BadRequest));
    assert_eq!(check_post_body(&post_body(Some("image/png"), Some("abc"))), Err(ApiError::InvalidPreview));
    assert_eq!(
        check_post_body(&post_body(None, Some("HelloWorld"))),
        Ok(Some(vec![0x86, 0x4F, 0xD2, 0x6F, 0xB5, 0x59, 0xF7, 0x5B]))
    );
}

#[test]
fn upload_heads_resume_at_stored_length() {
    let mut head =
        UploadHead { size: 100, flags: 0, name: "a.bin".to_string(), mime: None, preview: None, offset: 0 };
    head.resume_at(None);
    assert_eq!(head.offset, 0);
    head.resume_at(Some(42));
    assert_eq!(head.offset, 42);
    assert_eq!(head.size, 100);
    assert_eq!(head.name, "a.bin");
}

#[test]
fn party_statistics_by_room() {
    let rows = vec![
        StatsRow { room_id: 1, total: 10, file_count: 2, prefixed: 0 },
        StatsRow { room_id: 2, total: 5, file_count: 0, prefixed: 3 },
    ];
    let stats = room_statistics(&rows);
    assert_eq!(stats.len(), 2);
    assert_eq!(stats[&1], RoomStatistics { messages: 10, files: 2, prefixed: 0 });
    assert_eq!(stats[&2], RoomStatistics { messages: 5, files: 0, prefixed: 3 });
    assert!(room_statistics(&vec![]).is_empty());
}

#[test]
fn accounts_and_friends() {
    assert_eq!(friend_pair(1, 2), FriendPair { user_a: 1, user_b: 2, added_by_b: false });
    assert_eq!(friend_pair(2, 1), FriendPair { user_a: 1, user_b: 2, added_by_b: true });
    assert_eq!(check_changed(0), Err(ApiError::Unauthorized));
    assert_eq!(check_changed(1), Ok(()));
    assert!(relationship_pending(UserRelationship::Friend, UserRelationship::NoRelation));
    assert!(!relationship_pending(UserRelationship::Friend, UserRelationship::Friend));
    assert_eq!(count_account_fields(&account_form(None, None)), Err(ApiError::BadRequest));
    assert_eq!(count_account_fields(&account_form(Some("bob"), Some("bob@example.com"))), Ok(2));
    assert_eq!(count_account_fields(&account_form(None, Some("bob@example.com"))), Ok(1));
    assert!(is_noop_rename("bob", Some("bob"), 1));
    assert!(!is_noop_rename("bob", Some("bob"), 2));
    assert!(!is_noop_rename("bob", Some("rob"), 1));
    assert!(!is_noop_rename("bob", None, 1));
    assert_eq!(check_mfa_token_given(true, false), Err(ApiError::TOTPRequired));
    assert_eq!(check_mfa_token_given(false, false), Ok(()));
    assert_eq!(check_credentials(false), Err(ApiError::InvalidCredentials));
    assert_eq!(check_registration(false, true), Err(ApiError::InsufficientAge));
    assert_eq!(check_registration(true, true), Err(ApiError::AlreadyExists));
    assert_eq!(check_registration(true, false), Ok(()));
    assert_eq!(
        member_visibility(UserRelationship::Blocked, true),
        MemberVisibility { presence: false, last_active: false, nick_and_status: false, banner_and_bio: false }
    );
    assert_eq!(
        member_visibility(UserRelationship::Friend, false),
        MemberVisibility { presence: true, last_active: false, nick_and_status: true, banner_and_bio: false }
    );
    assert_eq!(user_visibility(true, false), UserVisibility { last_active: false, banner_status_bio: true });
    assert_eq!(user_visibility(false, true), UserVisibility { last_active: false, banner_status_bio: false });
}

#[test]
fn room_actions() {
    assert_eq!(check_typing(false), Err(ApiError::NotFound));
    assert_eq!(check_typing(true), Ok(()));
    assert_eq!(EmoteOrEmojiId::Emote(5).emote(), Some(5));
    assert_eq!(EmoteOrEmojiId::Emote(5).emoji(), None);
    assert_eq!(EmoteOrEmojiId::Emoji(3).emoji(), Some(3));
    assert_eq!(check_add_reaction(false), Err(ApiError::Unauthorized));
    assert_eq!(reaction_added(None), Err(ApiError::Unauthorized));
    assert_eq!(reaction_added(Some(Some(9))), Ok(Some(9)));
    assert_eq!(reaction_added(Some(None)), Ok(None));
    assert_eq!(check_remove_reaction(Some(false)), Err(ApiError::Unauthorized));
    assert_eq!(check_remove_reaction(Some(true)), Ok(false));
    assert_eq!(check_remove_reaction(None), Ok(true));
}

#[test]
fn embeds_once_per_address() {
    let urls: Vec<String> = ["a", "b", "a", "c", "b", "d"].iter().map(|s| s.to_string()).collect();
    let plan = plan_embeds(&urls, 10);
    assert_eq!(plan.picks, vec![0, 1, 3, 5]);
    assert!(!plan.limited);
    let plan = plan_embeds(&urls, 2);
    assert_eq!(plan.picks, vec![0, 1]);
    assert!(plan.limited);
    let plan = plan_embeds(&urls, 0);
    assert_eq!(plan.picks, vec![0, 1, 3, 5]);
    assert!(!plan.limited);
    assert!(embed_needs_refresh(None, 5));
    assert!(embed_needs_refresh(Some(5), 5));
    assert!(!embed_needs_refresh(Some(6), 5));
}

#[test]
fn ready_groups_items_by_party() {
    let parties = group_by_party(&vec![10, 20, 10, 30], &vec![20, 10, 40, 10, 30]);
    assert_eq!(parties.len(), 3);
    assert_eq!((parties[0].row, &parties[0].items), (1, &vec![0]));
    assert_eq!((parties[1].row, &parties[1].items), (2, &vec![1, 3]));
    assert_eq!((parties[2].row, &parties[2].items), (3, &vec![4]));
}

#[test]
fn room_permissions_admin_gets_all() {
    let admin = Permissions::from_i64(0b1000, 0);
    let all = Permissions::from_i64(-1, -1);
    assert_eq!(room_permissions(None, admin, all), Permissions::empty());
    assert_eq!(room_permissions(Some((0b0110, 0)), admin, all), Permissions::from_i64(0b0110, 0));
    assert_eq!(room_permissions(Some((0b1001, 2)), admin, all), all);
    assert!(Permissions::from_i64(0b110, 1).contains(Permissions::from_i64(0b100, 1)));
    assert!(!Permissions::from_i64(0b110, 0).contains(Permissions::from_i64(0b001, 0)));
    assert!(Permissions::from_i64(0b110, 0).intersects(Permissions::from_i64(0b011, 0)));
    assert_eq!(Permissions::from_i64(3, 4).to_i64(), [3, 4]);
    assert!(Permissions::empty().is_empty());
}

#[test]
fn new_party_has_everyone_role_and_general_room() {
    let form = PartyCreateForm { name: "Lantern".to_string(), description: Some("chat".to_string()), security: 3 };
    let p = new_party(form, 42, 100, 101, Permissions::from_i64(9, 0), Some(4));
    assert_eq!((p.id, p.owner, p.default_room, p.security, p.position), (100, 42, 101, 3, 5));
    assert_eq!(p.name, "Lantern");
    assert_eq!(p.description.as_deref(), Some("chat"));
    assert_eq!(p.roles.len(), 1);
    assert_eq!((p.roles[0].id, p.roles[0].party_id, p.roles[0].position), (100, 100, 0));
    assert_eq!(p.roles[0].name, "@everyone");
    assert_eq!(p.roles[0].permissions, Permissions::from_i64(9, 0));
    assert_eq!((p.room.id, p.room.party_id, p.room.position), (101, 100, 0));
    assert_eq!(p.room.name, "general");
    let first = new_party(
        PartyCreateForm { name: "x".to_string(), description: None, security: 0 },
        1, 2, 3, Permissions::from_i64(0, 0), None,
    );
    assert_eq!(first.position, 0);
}

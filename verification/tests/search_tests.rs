use lantern_backend::error::ApiError;
use lantern_backend::search::{
    check_listing, cursor_message_id, exact_no_perm, exact_no_perm_no_room, form_to_search, listing_query,
    message_limit, message_query, plan_search, process_terms, wuser_after_no_perm, wuser_after_perm,
    wuser_before_no_perm, wuser_before_perm, wuser_exact_no_perm, wuser_exact_perm, Cursor, GetMessagesQuery, Has,
    IdFilter, IdOrder, ListingQuery, MessageQueryShape, PresenceFilter, ProcessedSearch, SearchRequest, SearchScope,
    SearchTerm, SearchTermKind,
};

fn term(kind: SearchTermKind, negated: bool) -> SearchTerm {
    SearchTerm { kind, negated }
}

#[test]
fn process_terms_splits_criteria() {
    let mut terms = vec![
        term(SearchTermKind::Query("hello".to_string()), false),
        term(SearchTermKind::Has(Has::Image), false),
        term(SearchTermKind::Has(Has::Video), true),
        term(SearchTermKind::Has(Has::Link), false),
        term(SearchTermKind::Has(Has::Embed), true),
        term(SearchTermKind::Has(Has::File), false),
        term(SearchTermKind::Pinned(7), false),
        term(SearchTermKind::Pinned(8), true),
        term(SearchTermKind::Room(99), false),
        term(SearchTermKind::Ascending, false),
        term(SearchTermKind::IsStarred, false),
        term(SearchTermKind::Id(5), false),
        term(SearchTermKind::Parent(6), false),
        term(SearchTermKind::User(3), false),
    ];
    let mut scope = SearchScope::Party(1);
    let data = process_terms(&mut terms, &mut scope);
    assert_eq!(data.has_media.as_slice(), &[Has::Image]);
    assert_eq!(data.has_not_media.as_slice(), &[Has::Video]);
    assert_eq!(data.has_embed, Some(false));
    assert_eq!(data.has_file, Some(true));
    assert_eq!(data.pin_tags, vec![7]);
    assert_eq!(data.pin_not_tags, vec![8]);
    assert!(data.has_link);
    assert!(data.starred);
    assert!(data.ascending);
    assert_eq!(scope, SearchScope::Room(99));
    let kept: Vec<&SearchTermKind> = terms.iter().map(|t| &t.kind).collect();
    assert_eq!(
        kept,
        vec![
            &SearchTermKind::Query("hello".to_string()),
            &SearchTermKind::Has(Has::Link),
            &SearchTermKind::IsStarred,
            &SearchTermKind::User(3),
        ]
    );
}

#[test]
fn process_terms_last_room_and_has_wins() {
    let mut terms = vec![
        term(SearchTermKind::Room(1), false),
        term(SearchTermKind::Has(Has::Embed), false),
        term(SearchTermKind::Room(2), false),
        term(SearchTermKind::Has(Has::Embed), true),
    ];
    let mut scope = SearchScope::Party(5);
    let data = process_terms(&mut terms, &mut scope);
    assert_eq!(scope, SearchScope::Room(2));
    assert_eq!(data.has_embed, Some(false));
    assert!(terms.is_empty());
    assert!(!data.starred && !data.ascending && !data.has_link);
}

#[test]
fn process_terms_all_media_kinds() {
    let mut terms = vec![
        term(SearchTermKind::Has(Has::Audio), false),
        term(SearchTermKind::Has(Has::Image), false),
        term(SearchTermKind::Has(Has::Video), false),
        term(SearchTermKind::Has(Has::Image), true),
    ];
    let mut scope = SearchScope::Room(1);
    let data = process_terms(&mut terms, &mut scope);
    assert_eq!(data.has_media.as_slice(), &[Has::Audio, Has::Image, Has::Video]);
    assert_eq!(data.has_not_media.as_slice(), &[Has::Image]);
    assert_eq!(scope, SearchScope::Room(1));
}

fn query(query: Option<Cursor>, pinned: Vec<u64>, starred: bool, parent: Option<u64>) -> GetMessagesQuery {
    GetMessagesQuery { query, limit: None, parent, pinned, starred }
}

#[test]
fn form_to_search_plain_listing() {
    match form_to_search(1, 2, query(None, vec![9], true, Some(4)), true) {
        SearchRequest::Many { cursor, parent, user_id, room_id, needs_perms, starred, pinned } => {
            assert_eq!(cursor, Cursor::Before(u64::MAX));
            assert_eq!(parent, Some(4));
            assert_eq!(user_id, 1);
            assert_eq!(room_id, 2);
            assert!(needs_perms);
            assert!(starred);
            assert_eq!(pinned, Some(9));
        }
        _ => panic!("expected a plain listing"),
    }
}

#[test]
fn form_to_search_many_pins_become_search() {
    match form_to_search(1, 2, query(Some(Cursor::After(50)), vec![7, 8], true, Some(4)), false) {
        SearchRequest::Search { user_id, scope, count, terms } => {
            assert_eq!(user_id, 1);
            assert_eq!(scope, SearchScope::Room(2));
            assert!(!count);
            let kinds: Vec<&SearchTermKind> = terms.iter().map(|t| &t.kind).collect();
            for k in [
                SearchTermKind::Pinned(7),
                SearchTermKind::Pinned(8),
                SearchTermKind::After(50),
                SearchTermKind::Ascending,
                SearchTermKind::IsStarred,
                SearchTermKind::Room(2),
                SearchTermKind::Parent(4),
            ] {
                assert!(kinds.contains(&&k));
            }
            assert_eq!(terms.len(), 7);
            assert!(terms.iter().all(|t| !t.negated));
        }
        _ => panic!("expected a search"),
    }
}

#[test]
fn request_user_id() {
    assert_eq!(SearchRequest::Single { msg_id: 3 }.user_id(), None);
    let r = form_to_search(11, 2, query(None, vec![], false, None), false);
    assert_eq!(r.user_id(), Some(11));
}

#[test]
fn message_limit_values() {
    assert_eq!(message_limit(None), 100);
    assert_eq!(message_limit(Some(20)), 20);
    assert_eq!(message_limit(Some(500)), 100);
    // read as a signed 16-bit integer
    assert_eq!(message_limit(Some(65535)), -1);
}

fn processed() -> ProcessedSearch {
    ProcessedSearch {
        has_media: arrayvec::ArrayVec::new(),
        has_not_media: arrayvec::ArrayVec::new(),
        has_embed: None,
        has_file: None,
        pin_tags: vec![],
        pin_not_tags: vec![],
        has_link: false,
        starred: false,
        ascending: false,
    }
}

#[test]
fn plan_search_cheap_count() {
    let p = plan_search(&processed(), true, 100);
    assert_eq!(p.limit, None);
    assert_eq!(p.embeds, PresenceFilter::ByMedia);
    assert_eq!(p.files, PresenceFilter::ByMedia);
    assert!(!p.join_pins && p.single_pin.is_none() && !p.check_pinned && !p.exclude_pins);
    let p = plan_search(&processed(), false, 100);
    assert_eq!(p.limit, Some(101));
}

#[test]
fn plan_search_filters() {
    let mut d = processed();
    d.has_embed = Some(true);
    d.has_file = Some(false);
    d.pin_tags = vec![3];
    d.pin_not_tags = vec![4];
    d.starred = true;
    d.ascending = true;
    let p = plan_search(&d, true, 10);
    assert_eq!(p.embeds, PresenceFilter::Present);
    assert_eq!(p.files, PresenceFilter::Absent);
    assert_eq!(p.single_pin, Some(3));
    assert!(!p.join_pins && p.check_pinned && p.exclude_pins && p.starred_only && p.ascending);
    assert_eq!(p.limit, Some(11));
    d.has_media.push(Has::Image);
    d.pin_tags = vec![3, 5];
    let p = plan_search(&d, true, 10);
    assert_eq!(p.embeds, PresenceFilter::ByMedia);
    assert_eq!(p.files, PresenceFilter::Absent);
    assert!(p.join_pins);
    assert_eq!(p.single_pin, None);
}

#[test]
fn listing_checks_and_queries() {
    assert_eq!(check_listing(Some(false)), Err(ApiError::NotFound));
    assert_eq!(check_listing(Some(true)), Ok(true));
    assert_eq!(check_listing(None), Ok(false));
    assert_eq!(listing_query(true, None), ListingQuery::BeforeNoPerm);
    assert_eq!(listing_query(true, Some(Cursor::After(1))), ListingQuery::AfterNoPerm);
    assert_eq!(listing_query(false, Some(Cursor::Exact(1))), ListingQuery::ExactPerm);
    assert_eq!(listing_query(false, Some(Cursor::Before(1))), ListingQuery::BeforePerm);
    assert_eq!(cursor_message_id(None), u64::MAX);
    assert_eq!(cursor_message_id(Some(Cursor::Exact(12))), 12);
}

fn shape(id_filter: IdFilter, order: IdOrder, room: bool, user: bool, perms: bool) -> MessageQueryShape {
    MessageQueryShape { id_filter, order, room_filter: room, flags_unavailable: user, perms_filter: perms }
}

#[test]
fn message_statement_shapes() {
    assert_eq!(
        message_query(Cursor::After(5), true, true, false),
        shape(IdFilter::Greater, IdOrder::Ascending, true, false, true)
    );
    assert_eq!(exact_no_perm_no_room(), shape(IdFilter::Equal, IdOrder::Unordered, false, false, false));
    assert_eq!(exact_no_perm(), shape(IdFilter::Equal, IdOrder::Unordered, true, false, false));
    assert_eq!(wuser_before_no_perm(), shape(IdFilter::Less, IdOrder::Descending, true, true, false));
    assert_eq!(wuser_after_no_perm(), shape(IdFilter::Greater, IdOrder::Ascending, true, true, false));
    assert_eq!(wuser_exact_no_perm(), shape(IdFilter::Equal, IdOrder::Unordered, true, true, false));
    assert_eq!(wuser_before_perm(), shape(IdFilter::Less, IdOrder::Descending, true, true, true));
    assert_eq!(wuser_after_perm(), shape(IdFilter::Greater, IdOrder::Ascending, true, true, true));
    assert_eq!(wuser_exact_perm(), shape(IdFilter::Equal, IdOrder::Unordered, true, true, true));
    assert_eq!(listing_query(false, None).shape(), wuser_before_perm());
    assert_eq!(listing_query(true, Some(Cursor::After(1))).shape(), wuser_after_no_perm());
}

#[test]
fn pinned_listing_searches_its_pins_in_its_room() {
    match form_to_search(1, 2, query(Some(Cursor::After(50)), vec![8, 7, 8], false, None), false) {
        SearchRequest::Search { mut terms, .. } => {
            let mut scope = SearchScope::Party(3);
            let data = process_terms(&mut terms, &mut scope);
            assert_eq!(scope, SearchScope::Room(2));
            // the pins come in increasing order, each once
            assert_eq!(data.pin_tags, vec![7, 8]);
            assert!(data.pin_not_tags.is_empty());
            assert!(!data.starred);
            assert!(data.ascending);
            assert!(!data.has_link);
            assert_eq!(data.has_embed, None);
            assert_eq!(data.has_file, None);
            assert!(data.has_media.is_empty() && data.has_not_media.is_empty());
        }
        _ => panic!("expected a search"),
    }
}

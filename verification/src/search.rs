use vstd::prelude::*;

use crate::error::ApiError;

verus! {

/// Kinds of content a message search can ask for with `has:`.
#[derive(Debug, Clone, Copy, PartialEq, Eq, Structural)]
pub enum Has {
    Image,
    Video,
    Audio,
    Embed,
    File,
    Link,
}

/// One criterion of a message search.
#[derive(Debug, PartialEq, Eq)]
pub enum SearchTermKind {
    Query(String),
    Id(u64),
    Before(u64),
    After(u64),
    User(u64),
    Room(u64),
    Parent(u64),
    InThread,
    IsStarred,
    IsPinned,
    Pinned(u64),
    Has(Has),
    Ascending,
}

/// A search criterion, possibly negated.
#[derive(Debug, PartialEq, Eq)]
pub struct SearchTerm {
    pub kind: SearchTermKind,
    pub negated: bool,
}

impl SearchTermKind {
    pub fn duplicate(&self) -> (k: SearchTermKind)
        ensures
            k == *self,
    {
        match self {
            SearchTermKind::Query(q) => SearchTermKind::Query(q.clone()),
            SearchTermKind::Id(id) => SearchTermKind::Id(*id),
            SearchTermKind::Before(id) => SearchTermKind::Before(*id),
            SearchTermKind::After(id) => SearchTermKind::After(*id),
            SearchTermKind::User(id) => SearchTermKind::User(*id),
            SearchTermKind::Room(id) => SearchTermKind::Room(*id),
            SearchTermKind::Parent(id) => SearchTermKind::Parent(*id),
            SearchTermKind::InThread => SearchTermKind::InThread,
            SearchTermKind::IsStarred => SearchTermKind::IsStarred,
            SearchTermKind::IsPinned => SearchTermKind::IsPinned,
            SearchTermKind::Pinned(id) => SearchTermKind::Pinned(*id),
            SearchTermKind::Has(h) => SearchTermKind::Has(*h),
            SearchTermKind::Ascending => SearchTermKind::Ascending,
        }
    }
}

impl SearchTerm {
    pub fn duplicate(&self) -> (t: SearchTerm)
        ensures
            t == *self,
    {
        SearchTerm { kind: self.kind.duplicate(), negated: self.negated }
    }

    pub fn new(kind: SearchTermKind) -> (t: SearchTerm)
        ensures
            t.kind == kind,
            !t.negated,
    {
        SearchTerm { kind, negated: false }
    }
}

/// Where a search looks for messages.
#[derive(Debug, Clone, Copy, PartialEq, Eq, Structural)]
pub enum SearchScope {
    Party(u64),
    Room(u64),
}

/// The media kinds an `arrayvec::ArrayVec` of at most three holds, in order.
pub uninterp spec fn media_kinds(v: arrayvec::ArrayVec<Has, 3>) -> Seq<Has>;

/// The empty list of media kinds.
pub open spec fn no_media() -> Seq<Has> {
    Seq::empty()
}

/// An empty list of media kinds.
///
/// Trusted: calls `arrayvec::ArrayVec::new`, which starts empty.
#[verifier::external_body]
fn media_new() -> (v: arrayvec::ArrayVec<Has, 3>)
    ensures
        media_kinds(v) == no_media(),
{
    arrayvec::ArrayVec::new()
}

/// Appends a media kind to a list that has room for it.
///
/// Trusted: calls `arrayvec::ArrayVec::push`, which appends the element and panics when the
/// list is full; `requires` leaves that out.
#[verifier::external_body]
fn media_push(v: &mut arrayvec::ArrayVec<Has, 3>, h: Has)
    requires
        media_kinds(*old(v)).len() < 3,
    ensures
        media_kinds(*final(v)) == media_kinds(*old(v)).push(h),
{
    v.push(h);
}

/// Whether a list of media kinds is empty.
///
/// Trusted: calls `arrayvec::ArrayVec::is_empty`.
#[verifier::external_body]
fn media_is_empty(v: &arrayvec::ArrayVec<Has, 3>) -> (b: bool)
    ensures
        b == (media_kinds(*v).len() == 0),
{
    v.is_empty()
}

/// The criteria of a search that are not expressed as plain term filters.
pub struct ProcessedSearch {
    pub has_media: arrayvec::ArrayVec<Has, 3>,
    pub has_not_media: arrayvec::ArrayVec<Has, 3>,
    pub has_embed: Option<bool>,
    pub has_file: Option<bool>,
    pub pin_tags: Vec<u64>,
    pub pin_not_tags: Vec<u64>,
    pub has_link: bool,
    pub starred: bool,
    pub ascending: bool,
}

/// Whether `t` stays among the terms that the query filters on.
pub open spec fn keeps_term(t: SearchTerm) -> bool {
    match t.kind {
        SearchTermKind::Query(_) => true,
        SearchTermKind::Before(_) => true,
        SearchTermKind::After(_) => true,
        SearchTermKind::User(_) => true,
        SearchTermKind::InThread => true,
        SearchTermKind::IsStarred => true,
        SearchTermKind::IsPinned => true,
        SearchTermKind::Has(h) => h == Has::Link,
        _ => false,
    }
}

pub open spec fn is_media(h: Has) -> bool {
    h == Has::Image || h == Has::Video || h == Has::Audio
}

/// The media kind of `t` if it is a `has:` media term with the given negation.
pub open spec fn media_of(t: SearchTerm, negated: bool) -> Option<Has> {
    match t.kind {
        SearchTermKind::Has(h) => if is_media(h) && t.negated == negated {
            Some(h)
        } else {
            None
        },
        _ => None,
    }
}

/// The tag of `t` if it is a pin term with the given negation.
pub open spec fn pin_of(t: SearchTerm, negated: bool) -> Option<u64> {
    match t.kind {
        SearchTermKind::Pinned(tag) => if t.negated == negated {
            Some(tag)
        } else {
            None
        },
        _ => None,
    }
}

/// The answer of the last `has:` term of kind `which` (true unless negated), if any.
pub open spec fn last_has(s: Seq<SearchTerm>, which: Has) -> Option<bool>
    decreases s.len(),
{
    if s.len() == 0 {
        None
    } else if s.last().kind == SearchTermKind::Has(which) {
        Some(!s.last().negated)
    } else {
        last_has(s.drop_last(), which)
    }
}

/// The scope after the terms: the room of the last room term, otherwise `scope`.
pub open spec fn scope_after(s: Seq<SearchTerm>, scope: SearchScope) -> SearchScope
    decreases s.len(),
{
    if s.len() == 0 {
        scope
    } else {
        match s.last().kind {
            SearchTermKind::Room(id) => SearchScope::Room(id),
            _ => scope_after(s.drop_last(), scope),
        }
    }
}

pub open spec fn has_kind(s: Seq<SearchTerm>, k: SearchTermKind) -> bool {
    exists|i: int| 0 <= i < s.len() && #[trigger] s[i].kind == k
}

/// What `process_terms` extracts from the terms `s`, in their order.
pub open spec fn processed_matches(p: ProcessedSearch, s: Seq<SearchTerm>) -> bool {
    &&& media_kinds(p.has_media) == s.filter_map(|t: SearchTerm| media_of(t, false))
    &&& media_kinds(p.has_not_media) == s.filter_map(|t: SearchTerm| media_of(t, true))
    &&& p.has_embed == last_has(s, Has::Embed)
    &&& p.has_file == last_has(s, Has::File)
    &&& p.pin_tags@ == s.filter_map(|t: SearchTerm| pin_of(t, false))
    &&& p.pin_not_tags@ == s.filter_map(|t: SearchTerm| pin_of(t, true))
    &&& p.has_link == has_kind(s, SearchTermKind::Has(Has::Link))
    &&& p.starred == has_kind(s, SearchTermKind::IsStarred)
    &&& p.ascending == has_kind(s, SearchTermKind::Ascending)
}

/// Some term before position `i` of `s` is `has:h`, negated or not as given.
pub open spec fn has_term_before(s: Seq<SearchTerm>, i: int, h: Has, negated: bool) -> bool {
    exists|j: int| 0 <= j < i && (#[trigger] s[j]).kind == SearchTermKind::Has(h) && s[j].negated == negated
}

/// The media kinds collected so far: each once, each a media kind, each from an earlier
/// term with the given negation.
pub open spec fn media_collected(m: Seq<Has>, s: Seq<SearchTerm>, i: int, negated: bool) -> bool {
    &&& m.no_duplicates()
    &&& forall|k: int| 0 <= k < m.len() ==> is_media(#[trigger] m[k]) && has_term_before(s, i, m[k], negated)
}

/// A list of distinct media kinds without `h`, itself a media kind, has room for one more.
proof fn lemma_media_room(m: Seq<Has>, h: Has)
    requires
        m.no_duplicates(),
        forall|k: int| 0 <= k < m.len() ==> is_media(#[trigger] m[k]),
        !m.contains(h),
        is_media(h),
    ensures
        m.len() < 3,
{
    let others: Set<Has> = if h == Has::Image {
        set![Has::Video, Has::Audio]
    } else if h == Has::Video {
        set![Has::Image, Has::Audio]
    } else {
        set![Has::Image, Has::Video]
    };
    assert(others.len() == 2);
    assert(m.to_set().subset_of(others)) by {
        assert forall|x: Has| m.to_set().contains(x) implies others.contains(x) by {
            let k = choose|k: int| 0 <= k < m.len() && m[k] == x;
            assert(is_media(m[k]));
        }
    }
    vstd::set_lib::lemma_len_subset(m.to_set(), others);
    m.unique_seq_to_set();
}

/// Adding a media term to the collected kinds keeps them collected.
proof fn lemma_media_step(m: Seq<Has>, s: Seq<SearchTerm>, i: int, h: Has, negated: bool)
    requires
        0 <= i < s.len(),
        s.no_duplicates(),
        media_collected(m, s, i, negated),
        s[i].kind == SearchTermKind::Has(h),
        s[i].negated == negated,
        is_media(h),
    ensures
        m.len() < 3,
        media_collected(m.push(h), s, i + 1, negated),
{
    assert(!m.contains(h)) by {
        if m.contains(h) {
            let k = choose|k: int| 0 <= k < m.len() && m[k] == h;
            assert(has_term_before(s, i, m[k], negated));
            let j = choose|j: int| 0 <= j < i && (#[trigger] s[j]).kind == SearchTermKind::Has(h) && s[j].negated == negated;
            assert(s[j] == s[i]);
        }
    }
    lemma_media_room(m, h);
    let n = m.push(h);
    assert forall|k: int| 0 <= k < n.len() implies is_media(#[trigger] n[k]) && has_term_before(s, i + 1, n[k], negated) by {
        if k < m.len() {
            assert(n[k] == m[k]);
            assert(has_term_before(s, i, m[k], negated));
            let j = choose|j: int| 0 <= j < i && (#[trigger] s[j]).kind == SearchTermKind::Has(m[k]) && s[j].negated == negated;
            assert(0 <= j < i + 1);
        } else {
            assert(s[i].kind == SearchTermKind::Has(n[k]));
        }
    }
    assert(n.no_duplicates()) by {
        assert forall|a: int, b: int| 0 <= a < b < n.len() implies n[a] != n[b] by {
            if b == m.len() {
                assert(m.contains(m[a]));
            } else {
                assert(n[a] == m[a] && n[b] == m[b]);
            }
        }
    }
}

/// Media terms that came before `i` still come before `i + 1`.
proof fn lemma_media_extend(m: Seq<Has>, s: Seq<SearchTerm>, i: int, negated: bool)
    requires
        media_collected(m, s, i, negated),
    ensures
        media_collected(m, s, i + 1, negated),
{
    assert forall|k: int| 0 <= k < m.len() implies is_media(#[trigger] m[k]) && has_term_before(s, i + 1, m[k], negated) by {
        assert(has_term_before(s, i, m[k], negated));
        let j = choose|j: int| 0 <= j < i && (#[trigger] s[j]).kind == SearchTermKind::Has(m[k]) && s[j].negated == negated;
        assert(0 <= j < i + 1);
    }
}

/// A term of kind `k` is among the first `i + 1` terms when it is among the first `i` or
/// is the next one.
proof fn lemma_has_kind_step(s: Seq<SearchTerm>, i: int, k: SearchTermKind)
    requires
        0 <= i < s.len(),
    ensures
        has_kind(s.take(i + 1), k) == (has_kind(s.take(i), k) || s[i].kind == k),
{
    let prefix = s.take(i);
    let next = s.take(i + 1);
    if has_kind(prefix, k) {
        let j = choose|j: int| 0 <= j < prefix.len() && #[trigger] prefix[j].kind == k;
        assert(next[j] == prefix[j]);
    }
    if s[i].kind == k {
        assert(next[i] == s[i]);
    }
    if has_kind(next, k) {
        let j = choose|j: int| 0 <= j < next.len() && #[trigger] next[j].kind == k;
        if j < i {
            assert(prefix[j] == next[j]);
        }
    }
}

/// The kinds of term that the message query filters on itself: text, `before:` and
/// `after:` cursors, the author, threads, stars, pins in general, and `has:link`.
pub open spec fn filter_kind(k: SearchTermKind) -> bool {
    ||| k is Query
    ||| k is Before
    ||| k is After
    ||| k is User
    ||| k is InThread
    ||| k is IsStarred
    ||| k is IsPinned
    ||| k == SearchTermKind::Has(Has::Link)
}

/// The terms of `s` that stay among those the query filters on, in order.
pub open spec fn kept_terms(s: Seq<SearchTerm>) -> Seq<SearchTerm> {
    s.filter_map(|t: SearchTerm| if keeps_term(t) { Some(t) } else { None })
}

/// The terms the query filters on are exactly those of `s` of a filtering kind: each such
/// term of `s` (a `before:` cursor among them) is kept, and nothing else is.
pub proof fn lemma_kept_terms(s: Seq<SearchTerm>)
    ensures
        forall|i: int| 0 <= i < s.len() && filter_kind(#[trigger] s[i].kind) ==> kept_terms(s).contains(s[i]),
        forall|t: SearchTerm| #[trigger] kept_terms(s).contains(t) ==> s.contains(t) && filter_kind(t.kind),
{
    let f = |t: SearchTerm| if keeps_term(t) { Some(t) } else { None };
    assert(kept_terms(s) == s.filter_map(f));
    assert forall|i: int| 0 <= i < s.len() && filter_kind(#[trigger] s[i].kind) implies kept_terms(s).contains(s[i]) by {
        assert(s.contains(s[i]));
        lemma_filter_map_member(s, f, s[i]);
    }
    assert forall|t: SearchTerm| #[trigger] kept_terms(s).contains(t) implies s.contains(t) && filter_kind(t.kind) by {
        s.lemma_filter_map_contains(f, t);
        let u = choose|u: SearchTerm| #[trigger] s.contains(u) && f(u) == Some(t);
        assert(u == t);
    }
}

/// Splits the search terms into those the query filters on, which stay in `terms` in their
/// order, and the criteria that the query handles by other means, which are returned; a room
/// term narrows `scope` to that room (the last one wins).
pub fn process_terms(terms: &mut Vec<SearchTerm>, scope: &mut SearchScope) -> (data: ProcessedSearch)
    requires
        old(terms)@.no_duplicates(),
    ensures
        final(terms)@ == old(terms)@.filter_map(
            |t: SearchTerm| if keeps_term(t) { Some(t) } else { None },
        ),
        *final(scope) == scope_after(old(terms)@, *old(scope)),
        processed_matches(data, old(terms)@),
        forall|i: int| 0 <= i < old(terms)@.len() && filter_kind(#[trigger] old(terms)@[i].kind)
            ==> final(terms)@.contains(old(terms)@[i]),
        forall|t: SearchTerm| #[trigger] final(terms)@.contains(t) ==> old(terms)@.contains(t) && filter_kind(t.kind),
{
    proof {
        lemma_kept_terms(old(terms)@);
        assert(kept_terms(old(terms)@) == old(terms)@.filter_map(
            |t: SearchTerm| if keeps_term(t) { Some(t) } else { None },
        ));
    }
    let mut data = ProcessedSearch {
        has_media: media_new(),
        has_not_media: media_new(),
        has_embed: None,
        has_file: None,
        pin_tags: Vec::new(),
        pin_not_tags: Vec::new(),
        has_link: false,
        starred: false,
        ascending: false,
    };
    let ghost s = terms@;
    let ghost scope0 = *scope;
    let mut input: Vec<SearchTerm> = Vec::new();
    std::mem::swap(&mut input, terms);
    let n = input.len();
    let mut kept: Vec<SearchTerm> = Vec::new();
    let mut i: usize = 0;
    assert(s.take(0) =~= Seq::<SearchTerm>::empty());
    while i < n
        invariant
            n == input.len(),
            input@ == s,
            i <= n,
            kept@ == s.take(i as int).filter_map(
                |t: SearchTerm| if keeps_term(t) { Some(t) } else { None },
            ),
            *scope == scope_after(s.take(i as int), scope0),
            processed_matches(data, s.take(i as int)),
            s.no_duplicates(),
            media_collected(media_kinds(data.has_media), s, i as int, false),
            media_collected(media_kinds(data.has_not_media), s, i as int, true),
        decreases n - i,
    {
        let ghost prefix = s.take(i as int);
        let ghost next = s.take(i + 1);
        assert(next.drop_last() =~= prefix);
        assert(next.last() == s[i as int]);
        let t = &input[i];
        let mut keep = false;
        let ghost media0 = media_kinds(data.has_media);
        let ghost not_media0 = media_kinds(data.has_not_media);
        proof {
            lemma_media_extend(media0, s, i as int, false);
            lemma_media_extend(not_media0, s, i as int, true);
        }
        match &t.kind {
            SearchTermKind::Query(_) => keep = true,
            SearchTermKind::Before(_) => keep = true,
            SearchTermKind::After(_) => keep = true,
            SearchTermKind::Ascending => data.ascending = true,
            SearchTermKind::User(_) => keep = true,
            SearchTermKind::Room(id) => *scope = SearchScope::Room(*id),
            SearchTermKind::InThread => keep = true,
            SearchTermKind::IsStarred => {
                data.starred = true;
                keep = true;
            },
            SearchTermKind::IsPinned => keep = true,
            SearchTermKind::Pinned(tag) => {
                if t.negated {
                    data.pin_not_tags.push(*tag);
                } else {
                    data.pin_tags.push(*tag);
                }
            },
            SearchTermKind::Has(has) => {
                match has {
                    Has::Image | Has::Video | Has::Audio => {
                        if t.negated {
                            proof {
                                lemma_media_step(not_media0, s, i as int, *has, true);
                            }
                            media_push(&mut data.has_not_media, *has);
                        } else {
                            proof {
                                lemma_media_step(media0, s, i as int, *has, false);
                            }
                            media_push(&mut data.has_media, *has);
                        }
                    },
                    Has::Embed => data.has_embed = Some(!t.negated),
                    Has::File => data.has_file = Some(!t.negated),
                    Has::Link => {
                        data.has_link = true;
                        keep = true;
                    },
                }
            },
            _ => {},
        }
        proof {
            lemma_has_kind_step(s, i as int, SearchTermKind::Has(Has::Link));
            lemma_has_kind_step(s, i as int, SearchTermKind::IsStarred);
            lemma_has_kind_step(s, i as int, SearchTermKind::Ascending);
        }
        assert(keep == keeps_term(s[i as int]));
        assert(media_kinds(data.has_media) == next.filter_map(|t: SearchTerm| media_of(t, false)));
        assert(media_kinds(data.has_not_media) == next.filter_map(|t: SearchTerm| media_of(t, true)));
        assert(data.has_embed == last_has(next, Has::Embed));
        assert(data.has_file == last_has(next, Has::File));
        assert(data.pin_tags@ == next.filter_map(|t: SearchTerm| pin_of(t, false)));
        assert(data.pin_not_tags@ == next.filter_map(|t: SearchTerm| pin_of(t, true)));
        if keep {
            kept.push(t.duplicate());
        }
        i = i + 1;
    }
    assert(s.take(n as int) =~= s);
    *terms = kept;
    data
}

/// Position from which messages are listed.
#[derive(Debug, Clone, Copy, PartialEq, Eq, Structural)]
pub enum Cursor {
    After(u64),
    Before(u64),
    Exact(u64),
}

/// Query parameters of a message listing.
pub struct GetMessagesQuery {
    pub query: Option<Cursor>,
    pub limit: Option<u16>,
    pub parent: Option<u64>,
    pub pinned: Vec<u64>,
    pub starred: bool,
}

/// A request for messages, in the form the message query builder takes.
pub enum SearchRequest {
    Single { msg_id: u64 },
    Many {
        cursor: Cursor,
        parent: Option<u64>,
        user_id: u64,
        room_id: u64,
        needs_perms: bool,
        starred: bool,
        pinned: Option<u64>,
    },
    Search { user_id: u64, scope: SearchScope, count: bool, terms: Vec<SearchTerm> },
}

impl SearchRequest {
    /// The user on whose behalf messages are read, if the request has one.
    pub fn user_id(&self) -> (id: Option<u64>)
        ensures
            id == match self {
                SearchRequest::Many { user_id, .. } => Some(*user_id),
                SearchRequest::Search { user_id, .. } => Some(*user_id),
                SearchRequest::Single { .. } => None::<u64>,
            },
    {
        match self {
            SearchRequest::Many { user_id, .. } => Some(*user_id),
            SearchRequest::Search { user_id, .. } => Some(*user_id),
            SearchRequest::Single { .. } => None,
        }
    }
}

/// The cursor of a listing: the given one, or "before the largest id" when none is given.
pub open spec fn effective_cursor(query: Option<Cursor>) -> Cursor {
    match query {
        Some(c) => c,
        None => Cursor::Before(u64::MAX),
    }
}

/// The search term that expresses a cursor.
pub open spec fn cursor_term(c: Cursor) -> SearchTerm {
    match c {
        Cursor::After(id) => SearchTerm { kind: SearchTermKind::After(id), negated: false },
        Cursor::Before(id) => SearchTerm { kind: SearchTermKind::Before(id), negated: false },
        Cursor::Exact(id) => SearchTerm { kind: SearchTermKind::Id(id), negated: false },
    }
}

/// The terms of a listing by several pins, as a set: one per pin, the cursor, ascending
/// order for an `After` cursor, starred, the room, and the parent thread if given.
pub open spec fn listing_terms(
    room_id: u64,
    cursor: Cursor,
    pinned: Seq<u64>,
    starred: bool,
    parent: Option<u64>,
) -> Set<SearchTerm> {
    Set::new(
        |t: SearchTerm|
            {
                ||| (!t.negated && exists|i: int|
                    0 <= i < pinned.len() && t.kind == SearchTermKind::Pinned(#[trigger] pinned[i]))
                ||| t == cursor_term(cursor)
                ||| (cursor is After && t == SearchTerm {
                    kind: SearchTermKind::Ascending,
                    negated: false,
                })
                ||| (starred && t == SearchTerm { kind: SearchTermKind::IsStarred, negated: false })
                ||| t == SearchTerm { kind: SearchTermKind::Room(room_id), negated: false }
                ||| (parent is Some && t == SearchTerm {
                    kind: SearchTermKind::Parent(parent->0),
                    negated: false,
                })
            },
    )
}

fn cursor_search_term(c: Cursor) -> (t: SearchTerm)
    ensures
        t == cursor_term(c),
{
    match c {
        Cursor::After(id) => SearchTerm::new(SearchTermKind::After(id)),
        Cursor::Before(id) => SearchTerm::new(SearchTermKind::Before(id)),
        Cursor::Exact(id) => SearchTerm::new(SearchTermKind::Id(id)),
    }
}

/// The pin terms of `s` come in strictly increasing order of their tags, as in the ordered
/// set of terms that a search holds.
pub open spec fn pins_ascending(s: Seq<SearchTerm>) -> bool {
    forall|i: int, j: int|
        #![trigger s[i], s[j]]
        0 <= i < j < s.len() && s[i].kind is Pinned && s[j].kind is Pinned ==> s[i].kind->Pinned_0
            < s[j].kind->Pinned_0
}

/// The values of `pins`, each once, in increasing order.
fn sorted_distinct(pins: &Vec<u64>) -> (tags: Vec<u64>)
    ensures
        forall|a: int, b: int| 0 <= a < b < tags@.len() ==> tags@[a] < tags@[b],
        forall|x: u64| tags@.contains(x) <==> pins@.contains(x),
{
    let mut tags: Vec<u64> = Vec::new();
    let mut i: usize = 0;
    while i < pins.len()
        invariant
            i <= pins@.len(),
            forall|a: int, b: int| 0 <= a < b < tags@.len() ==> tags@[a] < tags@[b],
            forall|x: u64| tags@.contains(x) <==> pins@.subrange(0, i as int).contains(x),
        decreases pins.len() - i,
    {
        let pin = pins[i];
        let mut k: usize = 0;
        while k < tags.len() && tags[k] < pin
            invariant
                k <= tags@.len(),
                forall|m: int| 0 <= m < k ==> tags@[m] < pin,
            decreases tags.len() - k,
        {
            k = k + 1;
        }
        let ghost old_tags = tags@;
        let ghost pre = pins@.subrange(0, i as int);
        let ghost next = pins@.subrange(0, i + 1);
        assert(next =~= pre.push(pin));
        if k < tags.len() && tags[k] == pin {
            assert forall|x: u64| tags@.contains(x) <==> next.contains(x) by {
                if x == pin {
                    assert(tags@[k as int] == pin);
                    assert(next[i as int] == pin);
                } else {
                    if next.contains(x) {
                        let j = choose|j: int| 0 <= j < i + 1 && next[j] == x;
                        assert(pre[j] == x);
                    }
                    if pre.contains(x) {
                        let j = choose|j: int| 0 <= j < i && pre[j] == x;
                        assert(next[j] == x);
                    }
                }
            }
        } else {
            tags.insert(k, pin);
            proof {
                old_tags.insert_ensures(k as int, pin);
                assert forall|a: int, b: int| 0 <= a < b < tags@.len() implies tags@[a] < tags@[b] by {
                    if b < k {
                    } else if b == k {
                        assert(tags@[a] == old_tags[a]);
                    } else if a < k {
                        assert(tags@[a] == old_tags[a]);
                        assert(tags@[b] == old_tags[b - 1]);
                        assert(old_tags[k as int] >= pin);
                        if b - 1 > k {
                            assert(old_tags[k as int] < old_tags[b - 1]);
                        }
                    } else if a == k {
                        assert(tags@[b] == old_tags[b - 1]);
                        assert(old_tags[k as int] > pin);
                        if b - 1 > k {
                            assert(old_tags[k as int] < old_tags[b - 1]);
                        }
                    } else {
                        assert(tags@[a] == old_tags[a - 1]);
                        assert(tags@[b] == old_tags[b - 1]);
                    }
                }
                assert forall|x: u64| tags@.contains(x) <==> next.contains(x) by {
                    if tags@.contains(x) {
                        let m = choose|m: int| 0 <= m < tags@.len() && tags@[m] == x;
                        if m < k {
                            assert(old_tags[m] == x);
                        } else if m > k {
                            assert(old_tags[m - 1] == x);
                        }
                        if x != pin {
                            assert(old_tags.contains(x));
                            let j = choose|j: int| 0 <= j < i && pre[j] == x;
                            assert(next[j] == x);
                        } else {
                            assert(next[i as int] == pin);
                        }
                    }
                    if next.contains(x) {
                        let j = choose|j: int| 0 <= j < i + 1 && next[j] == x;
                        if j == i {
                            assert(tags@[k as int] == x);
                        } else {
                            assert(pre[j] == x);
                            assert(old_tags.contains(x));
                            let m = choose|m: int| 0 <= m < old_tags.len() && old_tags[m] == x;
                            if m < k {
                                assert(tags@[m] == x);
                            } else {
                                assert(tags@[m + 1] == x);
                            }
                        }
                    }
                }
            }
        }
        i = i + 1;
    }
    assert(pins@.subrange(0, pins@.len() as int) =~= pins@);
    tags
}

/// Turns a message listing into a search request. Listings by more than one pin become
/// searches of the room (pins are matched together); others are plain listings.
pub fn form_to_search(user_id: u64, room_id: u64, form: GetMessagesQuery, needs_perms: bool) -> (req:
    SearchRequest)
    ensures
        form.pinned.len() > 1 ==> (req matches SearchRequest::Search { user_id: u, scope, count, terms }
            && u == user_id && scope == SearchScope::Room(room_id) && !count && terms@.no_duplicates()
            && pins_ascending(terms@) && terms@.to_set() == listing_terms(
            room_id,
            effective_cursor(form.query),
            form.pinned@,
            form.starred,
            form.parent,
        )),
        form.pinned.len() <= 1 ==> req == (SearchRequest::Many {
            cursor: effective_cursor(form.query),
            parent: form.parent,
            user_id,
            room_id,
            needs_perms,
            starred: form.starred,
            pinned: if form.pinned.len() == 1 {
                Some(form.pinned[0])
            } else {
                None
            },
        }),
{
    let cursor = match form.query {
        Some(c) => c,
        None => Cursor::Before(u64::MAX),
    };
    if form.pinned.len() > 1 {
        let ghost pins = form.pinned@;
        let n = form.pinned.len();
        let tags = sorted_distinct(&form.pinned);
        let mut terms: Vec<SearchTerm> = Vec::new();
        let mut k: usize = 0;
        while k < tags.len()
            invariant
                k <= tags@.len(),
                terms@.len() == k,
                forall|m: int| 0 <= m < k ==> #[trigger] terms@[m] == (SearchTerm { kind: SearchTermKind::Pinned(tags@[m]), negated: false }),
            decreases tags.len() - k,
        {
            terms.push(SearchTerm::new(SearchTermKind::Pinned(tags[k])));
            k = k + 1;
        }
        proof {
            assert(tags@.no_duplicates()) by {
                assert forall|a: int, b: int| 0 <= a < b < tags@.len() implies tags@[a] != tags@[b] by {
                    assert(tags@[a] < tags@[b]);
                }
            }
            assert forall|k: int| #![trigger tags@[k]] 0 <= k < tags@.len() implies exists|j: int| 0 <= j < n && #[trigger] pins[j] == tags@[k] by {
                assert(tags@.contains(tags@[k]));
                assert(pins.contains(tags@[k]));
            }
            assert forall|j: int| 0 <= j < n implies tags@.contains(#[trigger] pins[j]) by {
                assert(pins.contains(pins[j]));
            }
        }
        let ghost npins = terms@.len();
        terms.push(cursor_search_term(cursor));
        let ghost n1 = terms@.len();
        match cursor {
            Cursor::After(_) => terms.push(SearchTerm::new(SearchTermKind::Ascending)),
            _ => {},
        }
        let ghost n2 = terms@.len();
        if form.starred {
            terms.push(SearchTerm::new(SearchTermKind::IsStarred));
        }
        let ghost n3 = terms@.len();
        terms.push(SearchTerm::new(SearchTermKind::Room(room_id)));
        let ghost n4 = terms@.len();
        match form.parent {
            Some(parent) => terms.push(SearchTerm::new(SearchTermKind::Parent(parent))),
            None => {},
        }
        assert(cursor is After ==> terms@[n1 as int] == SearchTerm { kind: SearchTermKind::Ascending, negated: false });
        assert(form.starred ==> terms@[n2 as int] == SearchTerm { kind: SearchTermKind::IsStarred, negated: false });
        assert(terms@[n3 as int] == SearchTerm { kind: SearchTermKind::Room(room_id), negated: false });
        assert(form.parent is Some ==> terms@[n4 as int] == SearchTerm { kind: SearchTermKind::Parent(form.parent->0), negated: false });
        let ghost expected = listing_terms(room_id, cursor, pins, form.starred, form.parent);
        assert forall|k: int| 0 <= k < terms@.len() implies expected.contains(#[trigger] terms@[k]) by {
            if k < npins {
                let j = choose|j: int| 0 <= j < n && #[trigger] pins[j] == tags@[k];
                assert(terms@[k].kind == SearchTermKind::Pinned(pins[j]));
            }
        }
        assert forall|t: SearchTerm| expected.contains(t) implies terms@.contains(t) by {
            if !t.negated && exists|j: int| 0 <= j < pins.len() && t.kind == SearchTermKind::Pinned(#[trigger] pins[j]) {
                let j = choose|j: int| 0 <= j < pins.len() && t.kind == SearchTermKind::Pinned(#[trigger] pins[j]);
                let m = choose|m: int| 0 <= m < tags@.len() && tags@[m] == pins[j];
                assert(terms@[m] == t);
            } else if t == cursor_term(cursor) {
                assert(terms@[npins as int] == t);
            } else if cursor is After && t == (SearchTerm { kind: SearchTermKind::Ascending, negated: false }) {
                assert(terms@[n1 as int] == t);
            } else if form.starred && t == (SearchTerm { kind: SearchTermKind::IsStarred, negated: false }) {
                assert(terms@[n2 as int] == t);
            } else if t == (SearchTerm { kind: SearchTermKind::Room(room_id), negated: false }) {
                assert(terms@[n3 as int] == t);
            } else {
                assert(terms@[n4 as int] == t);
            }
        }
        assert(terms@.to_set() =~= expected);
        assert(terms@.no_duplicates());
        assert forall|k: int| npins <= k < terms@.len() implies !((#[trigger] terms@[k]).kind is Pinned) by {
            if k == npins {
                assert(terms@[k] == cursor_term(cursor));
            } else if k == n1 && cursor is After {
            } else if k == n2 && form.starred {
            } else if k == n3 {
            } else {
                assert(k == n4 && form.parent is Some);
            }
        }
        assert(pins_ascending(terms@));
        SearchRequest::Search { user_id, scope: SearchScope::Room(room_id), count: false, terms }
    } else {
        let pinned = if form.pinned.len() == 1 {
            Some(form.pinned[0])
        } else {
            None
        };
        SearchRequest::Many {
            cursor,
            parent: form.parent,
            user_id,
            room_id,
            needs_perms,
            starred: form.starred,
            pinned,
        }
    }
}

/// `filter_map` keeps what `f` maps an element of the sequence to.
proof fn lemma_filter_map_member<A, B>(s: Seq<A>, f: spec_fn(A) -> Option<B>, t: A)
    requires
        s.contains(t),
        f(t) is Some,
    ensures
        s.filter_map(f).contains(f(t)->0),
    decreases s.len(),
{
    let rest = s.drop_last();
    if s.last() == t {
        assert(s.filter_map(f) == rest.filter_map(f) + seq![f(t)->0]);
        assert(s.filter_map(f)[rest.filter_map(f).len() as int] == f(t)->0);
    } else {
        let k = choose|k: int| 0 <= k < s.len() && s[k] == t;
        assert(rest[k] == t);
        lemma_filter_map_member(rest, f, t);
        let j = choose|j: int| 0 <= j < rest.filter_map(f).len() && rest.filter_map(f)[j] == f(t)->0;
        match f(s.last()) {
            Some(b) => assert(s.filter_map(f)[j] == rest.filter_map(f)[j]),
            None => {},
        }
    }
}

/// `filter_map` of a sequence none of whose elements `f` maps to anything is empty.
proof fn lemma_filter_map_nothing<A, B>(s: Seq<A>, f: spec_fn(A) -> Option<B>)
    requires
        forall|i: int| 0 <= i < s.len() ==> f(#[trigger] s[i]) is None,
    ensures
        s.filter_map(f).len() == 0,
    decreases s.len(),
{
    if s.len() > 0 {
        let rest = s.drop_last();
        assert forall|i: int| 0 <= i < rest.len() implies f(#[trigger] rest[i]) is None by {
            assert(rest[i] == s[i]);
        }
        lemma_filter_map_nothing(rest, f);
        assert(f(s[s.len() - 1]) is None);
    }
}

/// Where every room term of `s` names room `r` and one does, the scope becomes that room.
proof fn lemma_scope_after_room(s: Seq<SearchTerm>, scope: SearchScope, r: u64)
    requires
        forall|i: int| 0 <= i < s.len() ==> ((#[trigger] s[i]).kind is Room ==> s[i].kind == SearchTermKind::Room(r)),
        exists|i: int| 0 <= i < s.len() && (#[trigger] s[i]).kind == SearchTermKind::Room(r),
    ensures
        scope_after(s, scope) == SearchScope::Room(r),
    decreases s.len(),
{
    let last = s[s.len() - 1];
    if !(last.kind is Room) {
        let rest = s.drop_last();
        let i = choose|i: int| 0 <= i < s.len() && (#[trigger] s[i]).kind == SearchTermKind::Room(r);
        assert(i != s.len() - 1);
        assert(rest[i] == s[i]);
        assert forall|k: int| 0 <= k < rest.len() && (#[trigger] rest[k]).kind is Room implies rest[k].kind == SearchTermKind::Room(r) by {
            assert(rest[k] == s[k]);
        }
        lemma_scope_after_room(rest, scope, r);
    }
}

/// Without a `has:` term of kind `which`, there is no answer for it.
proof fn lemma_last_has_none(s: Seq<SearchTerm>, which: Has)
    requires
        forall|i: int| 0 <= i < s.len() ==> (#[trigger] s[i]).kind != SearchTermKind::Has(which),
    ensures
        last_has(s, which) is None,
    decreases s.len(),
{
    if s.len() > 0 {
        let rest = s.drop_last();
        assert forall|i: int| 0 <= i < rest.len() implies (#[trigger] rest[i]).kind != SearchTermKind::Has(which) by {
            assert(rest[i] == s[i]);
        }
        assert(s[s.len() - 1] == s.last());
        lemma_last_has_none(rest, which);
    }
}

/// Each element of `s` is smaller than the next ones.
pub open spec fn strictly_ascending(s: Seq<u64>) -> bool {
    forall|a: int, b: int| 0 <= a < b < s.len() ==> s[a] < s[b]
}

/// The tags of the pin terms of `s` that are not refused come out in increasing order
/// when the pin terms of `s` are in increasing order.
proof fn lemma_pin_tags_ascending(s: Seq<SearchTerm>)
    requires
        pins_ascending(s),
    ensures
        strictly_ascending(s.filter_map(|t: SearchTerm| pin_of(t, false))),
    decreases s.len(),
{
    let f = |t: SearchTerm| pin_of(t, false);
    if s.len() > 0 {
        let rest = s.drop_last();
        assert forall|i: int, j: int|
            #![trigger rest[i], rest[j]]
            0 <= i < j < rest.len() && rest[i].kind is Pinned && rest[j].kind is Pinned implies rest[i].kind->Pinned_0
                < rest[j].kind->Pinned_0 by {
            assert(rest[i] == s[i] && rest[j] == s[j]);
        }
        lemma_pin_tags_ascending(rest);
        let rf = rest.filter_map(f);
        match f(s.last()) {
            Some(x) => {
                assert(s.filter_map(f) == rf + seq![x]);
                assert forall|a: int| 0 <= a < rf.len() implies rf[a] < x by {
                    assert(rf.contains(rf[a]));
                    rest.lemma_filter_map_contains(f, rf[a]);
                    let t = choose|t: SearchTerm| #[trigger] rest.contains(t) && f(t) == Some(rf[a]);
                    let i = choose|i: int| 0 <= i < rest.len() && rest[i] == t;
                    assert(s[i] == t);
                    assert(s[s.len() - 1] == s.last());
                }
            },
            None => {},
        }
    }
}

/// The answer for a `has:` kind is none exactly when no term asks for it, and otherwise
/// that of the last term that does: true unless that term is negated.
pub proof fn lemma_last_has_is_last(s: Seq<SearchTerm>, which: Has)
    ensures
        last_has(s, which) is None <==> forall|i: int| 0 <= i < s.len() ==> (#[trigger] s[i]).kind != SearchTermKind::Has(which),
        last_has(s, which) matches Some(b) ==> exists|j: int|
            0 <= j < s.len() && (#[trigger] s[j]).kind == SearchTermKind::Has(which) && b == !s[j].negated && forall|k: int|
                j < k < s.len() ==> (#[trigger] s[k]).kind != SearchTermKind::Has(which),
    decreases s.len(),
{
    if s.len() > 0 {
        let rest = s.drop_last();
        lemma_last_has_is_last(rest, which);
        let n = s.len() - 1;
        assert(s[n] == s.last());
        assert forall|i: int| 0 <= i < rest.len() implies rest[i] == s[i] by {}
        if s.last().kind == SearchTermKind::Has(which) {
            assert(s[n].kind == SearchTermKind::Has(which));
        } else {
            if last_has(rest, which) is None {
                assert forall|i: int| 0 <= i < s.len() implies (#[trigger] s[i]).kind != SearchTermKind::Has(which) by {
                    if i < n {
                        assert(rest[i] == s[i]);
                    }
                }
            } else {
                let b = last_has(rest, which)->0;
                let j = choose|j: int|
                    0 <= j < rest.len() && (#[trigger] rest[j]).kind == SearchTermKind::Has(which) && b == !rest[j].negated
                        && forall|k: int| j < k < rest.len() ==> (#[trigger] rest[k]).kind != SearchTermKind::Has(which);
                assert(s[j] == rest[j]);
                assert forall|k: int| j < k < s.len() implies (#[trigger] s[k]).kind != SearchTermKind::Has(which) by {
                    if k < n {
                        assert(rest[k] == s[k]);
                    }
                }
                let i = choose|i: int| 0 <= i < rest.len() && rest[i].kind == SearchTermKind::Has(which);
                assert(s[i] == rest[i]);
            }
        }
    }
}

/// Without a room term the scope stays as it was; with one, it becomes the room of a room
/// term that no later room term follows.
pub proof fn lemma_scope_after_last_room(s: Seq<SearchTerm>, scope: SearchScope)
    ensures
        (forall|i: int| 0 <= i < s.len() ==> !((#[trigger] s[i]).kind is Room)) ==> scope_after(s, scope) == scope,
        (exists|i: int| 0 <= i < s.len() && (#[trigger] s[i]).kind is Room) ==> (scope_after(s, scope) is Room
            && exists|j: int|
            0 <= j < s.len() && (#[trigger] s[j]).kind == SearchTermKind::Room(scope_after(s, scope)->Room_0)
                && forall|k: int| j < k < s.len() ==> !((#[trigger] s[k]).kind is Room)),
    decreases s.len(),
{
    if s.len() > 0 {
        let rest = s.drop_last();
        lemma_scope_after_last_room(rest, scope);
        let n = s.len() - 1;
        assert(s[n] == s.last());
        if s.last().kind is Room {
            assert(s[n].kind == SearchTermKind::Room(scope_after(s, scope)->Room_0));
        } else {
            if forall|i: int| 0 <= i < s.len() ==> !((#[trigger] s[i]).kind is Room) {
                assert forall|i: int| 0 <= i < rest.len() implies !((#[trigger] rest[i]).kind is Room) by {
                    assert(rest[i] == s[i]);
                }
            }
            if exists|i: int| 0 <= i < s.len() && (#[trigger] s[i]).kind is Room {
                let i = choose|i: int| 0 <= i < s.len() && (#[trigger] s[i]).kind is Room;
                assert(i < n);
                assert(rest[i] == s[i]);
                let j = choose|j: int|
                    0 <= j < rest.len() && (#[trigger] rest[j]).kind == SearchTermKind::Room(scope_after(rest, scope)->Room_0)
                        && forall|k: int| j < k < rest.len() ==> !((#[trigger] rest[k]).kind is Room);
                assert(s[j] == rest[j]);
                assert forall|k: int| j < k < s.len() implies !((#[trigger] s[k]).kind is Room) by {
                    if k < n {
                        assert(rest[k] == s[k]);
                    }
                }
            }
        }
    }
}

/// What `process_terms` extracts, in terms of the terms themselves: the pin tags asked for
/// (refused) are exactly those of the `pinned:` terms that are not (are) negated, and the
/// media kinds asked for (refused) exactly the image, video and audio kinds of the `has:`
/// terms that are not (are) negated.
pub proof fn lemma_processed_from_terms(s: Seq<SearchTerm>, data: ProcessedSearch)
    requires
        processed_matches(data, s),
    ensures
        forall|x: u64|
            #![trigger data.pin_tags@.contains(x)]
            data.pin_tags@.contains(x) <==> s.contains(SearchTerm { kind: SearchTermKind::Pinned(x), negated: false }),
        forall|x: u64|
            #![trigger data.pin_not_tags@.contains(x)]
            data.pin_not_tags@.contains(x) <==> s.contains(SearchTerm { kind: SearchTermKind::Pinned(x), negated: true }),
        forall|h: Has|
            #![trigger media_kinds(data.has_media).contains(h)]
            media_kinds(data.has_media).contains(h) <==> ((h == Has::Image || h == Has::Video || h == Has::Audio)
                && s.contains(SearchTerm { kind: SearchTermKind::Has(h), negated: false })),
        forall|h: Has|
            #![trigger media_kinds(data.has_not_media).contains(h)]
            media_kinds(data.has_not_media).contains(h) <==> ((h == Has::Image || h == Has::Video || h == Has::Audio)
                && s.contains(SearchTerm { kind: SearchTermKind::Has(h), negated: true })),
{
    let pins_on = |t: SearchTerm| pin_of(t, false);
    let pins_off = |t: SearchTerm| pin_of(t, true);
    let media_on = |t: SearchTerm| media_of(t, false);
    let media_off = |t: SearchTerm| media_of(t, true);
    assert forall|x: u64| data.pin_tags@.contains(x) <==> s.contains(SearchTerm { kind: SearchTermKind::Pinned(x), negated: false }) by {
        let t = SearchTerm { kind: SearchTermKind::Pinned(x), negated: false };
        if data.pin_tags@.contains(x) {
            s.lemma_filter_map_contains(pins_on, x);
            let u = choose|u: SearchTerm| #[trigger] s.contains(u) && pins_on(u) == Some(x);
            assert(u == t);
        }
        if s.contains(t) {
            lemma_filter_map_member(s, pins_on, t);
        }
    }
    assert forall|x: u64| data.pin_not_tags@.contains(x) <==> s.contains(SearchTerm { kind: SearchTermKind::Pinned(x), negated: true }) by {
        let t = SearchTerm { kind: SearchTermKind::Pinned(x), negated: true };
        if data.pin_not_tags@.contains(x) {
            s.lemma_filter_map_contains(pins_off, x);
            let u = choose|u: SearchTerm| #[trigger] s.contains(u) && pins_off(u) == Some(x);
            assert(u == t);
        }
        if s.contains(t) {
            lemma_filter_map_member(s, pins_off, t);
        }
    }
    assert forall|h: Has| media_kinds(data.has_media).contains(h) <==> ((h == Has::Image || h == Has::Video || h == Has::Audio)
        && s.contains(SearchTerm { kind: SearchTermKind::Has(h), negated: false })) by {
        let t = SearchTerm { kind: SearchTermKind::Has(h), negated: false };
        if media_kinds(data.has_media).contains(h) {
            s.lemma_filter_map_contains(media_on, h);
            let u = choose|u: SearchTerm| #[trigger] s.contains(u) && media_on(u) == Some(h);
            assert(u == t);
        }
        if (h == Has::Image || h == Has::Video || h == Has::Audio) && s.contains(t) {
            lemma_filter_map_member(s, media_on, t);
        }
    }
    assert forall|h: Has| media_kinds(data.has_not_media).contains(h) <==> ((h == Has::Image || h == Has::Video || h == Has::Audio)
        && s.contains(SearchTerm { kind: SearchTermKind::Has(h), negated: true })) by {
        let t = SearchTerm { kind: SearchTermKind::Has(h), negated: true };
        if media_kinds(data.has_not_media).contains(h) {
            s.lemma_filter_map_contains(media_off, h);
            let u = choose|u: SearchTerm| #[trigger] s.contains(u) && media_off(u) == Some(h);
            assert(u == t);
        }
        if (h == Has::Image || h == Has::Video || h == Has::Audio) && s.contains(t) {
            lemma_filter_map_member(s, media_off, t);
        }
    }
}

/// A listing by several pins, turned into a search by `form_to_search` and processed by
/// `process_terms`, looks in its room for the messages that carry those pins (none
/// refused, in increasing order when the terms are ordered as `form_to_search` orders them), only starred ones exactly when asked, in ascending order exactly for an
/// `After` cursor, and with no media, embed, file or link criterion.
pub proof fn lemma_pinned_listing_search(
    s: Seq<SearchTerm>,
    data: ProcessedSearch,
    scope: SearchScope,
    room_id: u64,
    cursor: Cursor,
    pins: Seq<u64>,
    starred: bool,
    parent: Option<u64>,
)
    requires
        s.to_set() == listing_terms(room_id, cursor, pins, starred, parent),
        processed_matches(data, s),
    ensures
        scope_after(s, scope) == SearchScope::Room(room_id),
        data.pin_tags@.to_set() == pins.to_set(),
        data.pin_not_tags@.len() == 0,
        data.starred == starred,
        data.ascending == (cursor is After),
        !data.has_link,
        data.has_embed is None,
        data.has_file is None,
        media_kinds(data.has_media).len() == 0,
        media_kinds(data.has_not_media).len() == 0,
        pins_ascending(s) ==> strictly_ascending(data.pin_tags@),
{
    if pins_ascending(s) {
        lemma_pin_tags_ascending(s);
    }
    let l = listing_terms(room_id, cursor, pins, starred, parent);
    assert forall|i: int| 0 <= i < s.len() implies l.contains(#[trigger] s[i]) by {
        assert(s.to_set().contains(s[i]));
    }
    let room_term = SearchTerm { kind: SearchTermKind::Room(room_id), negated: false };
    assert(l.contains(room_term));
    assert(s.to_set().contains(room_term));
    let ri = choose|i: int| 0 <= i < s.len() && s[i] == room_term;
    assert(s[ri].kind == SearchTermKind::Room(room_id));
    lemma_scope_after_room(s, scope, room_id);
    // no term is negated, and none is a `has:` term
    assert forall|i: int| 0 <= i < s.len() implies !(#[trigger] s[i]).negated && !(s[i].kind is Has) by {
        assert(l.contains(s[i]));
    }
    let pins_on = |t: SearchTerm| pin_of(t, false);
    assert forall|x: u64| data.pin_tags@.to_set().contains(x) <==> pins.to_set().contains(x) by {
        if data.pin_tags@.contains(x) {
            s.lemma_filter_map_contains(pins_on, x);
            let t = choose|t: SearchTerm| #[trigger] s.contains(t) && pins_on(t) == Some(x);
            let i = choose|i: int| 0 <= i < s.len() && s[i] == t;
            assert(l.contains(s[i]));
            assert(t.kind == SearchTermKind::Pinned(x));
            let k = choose|k: int| 0 <= k < pins.len() && t.kind == SearchTermKind::Pinned(#[trigger] pins[k]);
            assert(pins[k] == x);
        }
        if pins.contains(x) {
            let k = choose|k: int| 0 <= k < pins.len() && pins[k] == x;
            let t = SearchTerm { kind: SearchTermKind::Pinned(x), negated: false };
            assert(t.kind == SearchTermKind::Pinned(pins[k]));
            assert(l.contains(t));
            assert(s.to_set().contains(t));
            lemma_filter_map_member(s, pins_on, t);
        }
    }
    assert(data.pin_tags@.to_set() =~= pins.to_set());
    lemma_filter_map_nothing(s, |t: SearchTerm| pin_of(t, true));
    lemma_filter_map_nothing(s, |t: SearchTerm| media_of(t, false));
    lemma_filter_map_nothing(s, |t: SearchTerm| media_of(t, true));
    lemma_last_has_none(s, Has::Embed);
    lemma_last_has_none(s, Has::File);
    let starred_term = SearchTerm { kind: SearchTermKind::IsStarred, negated: false };
    if starred {
        assert(l.contains(starred_term));
        assert(s.to_set().contains(starred_term));
        let i = choose|i: int| 0 <= i < s.len() && s[i] == starred_term;
        assert(s[i].kind == SearchTermKind::IsStarred);
    } else {
        assert forall|i: int| 0 <= i < s.len() implies (#[trigger] s[i]).kind != SearchTermKind::IsStarred by {
            assert(l.contains(s[i]));
        }
    }
    let ascending_term = SearchTerm { kind: SearchTermKind::Ascending, negated: false };
    if cursor is After {
        assert(l.contains(ascending_term));
        assert(s.to_set().contains(ascending_term));
        let i = choose|i: int| 0 <= i < s.len() && s[i] == ascending_term;
        assert(s[i].kind == SearchTermKind::Ascending);
    } else {
        assert forall|i: int| 0 <= i < s.len() implies (#[trigger] s[i]).kind != SearchTermKind::Ascending by {
            assert(l.contains(s[i]));
        }
    }
}

/// The number of messages a listing returns: the requested limit (read as a 16-bit signed
/// integer), but at most 100; 100 when no limit is requested.
pub fn message_limit(limit: Option<u16>) -> (n: i16)
    ensures
        n == match limit {
            Some(l) => if (l as i16) < 100 {
                l as i16
            } else {
                100i16
            },
            None => 100i16,
        },
{
    match limit {
        Some(l) => {
            let l = l as i16;
            if l < 100 {
                l
            } else {
                100
            }
        },
        None => 100,
    }
}

/// How a search filters on embeds or on attached files.
#[derive(Debug, Clone, Copy, PartialEq, Eq, Structural)]
pub enum PresenceFilter {
    /// The message must have none.
    Absent,
    /// The message must have at least one.
    Present,
    /// Only the media kinds asked for (or refused) with `has:` count; with no such kind
    /// nothing is filtered.
    ByMedia,
}

/// The shape of the query that a processed search runs.
#[derive(Debug, Clone, Copy, PartialEq, Eq, Structural)]
pub struct SearchPlan {
    /// Only starred messages, so every selected message counts as starred.
    pub starred_only: bool,
    /// Several pin tags are asked for: join the pins and keep the messages that carry all.
    pub join_pins: bool,
    /// Exactly one pin tag is asked for.
    pub single_pin: Option<u64>,
    /// Some pin tags are refused.
    pub exclude_pins: bool,
    /// An `is:pinned` term must look up the pins (it is redundant with no tag asked for).
    pub check_pinned: bool,
    pub embeds: PresenceFilter,
    pub files: PresenceFilter,
    pub ascending: bool,
    /// The row limit of the selection, if it has one.
    pub limit: Option<i16>,
}

/// A media kind is asked for or refused.
pub open spec fn has_media_query(data: ProcessedSearch) -> bool {
    media_kinds(data.has_media).len() > 0 || media_kinds(data.has_not_media).len() > 0
}

/// The filter for a presence criterion (`has:embed` or `has:file`).
pub open spec fn presence_filter(wanted: Option<bool>, media_query: bool) -> PresenceFilter {
    match wanted {
        Some(false) => PresenceFilter::Absent,
        Some(true) => if media_query {
            PresenceFilter::ByMedia
        } else {
            PresenceFilter::Present
        },
        None => PresenceFilter::ByMedia,
    }
}

/// The selection has joins that make counting all matches expensive.
pub open spec fn has_difficult_joins(data: ProcessedSearch) -> bool {
    data.has_embed is Some || data.has_file is Some || has_media_query(data) || data.has_link
}

fn presence_of(wanted: Option<bool>, media_query: bool) -> (f: PresenceFilter)
    ensures
        f == presence_filter(wanted, media_query),
{
    match wanted {
        Some(false) => PresenceFilter::Absent,
        Some(true) => if media_query {
            PresenceFilter::ByMedia
        } else {
            PresenceFilter::Present
        },
        None => PresenceFilter::ByMedia,
    }
}

/// Decides the shape of the query for a processed search: which pin, star, embed and file
/// filters it has, its order, and its limit (one more than `limit`, to tell whether more
/// results follow, unless the total is counted over cheap joins).
pub fn plan_search(data: &ProcessedSearch, count: bool, limit: i16) -> (plan: SearchPlan)
    requires
        limit < i16::MAX,
    ensures
        plan.starred_only == data.starred,
        plan.join_pins == (data.pin_tags@.len() > 1),
        plan.single_pin == (if data.pin_tags@.len() == 1 {
            Some(data.pin_tags@[0])
        } else {
            None
        }),
        plan.exclude_pins == (data.pin_not_tags@.len() > 0),
        plan.check_pinned == (data.pin_tags@.len() > 0),
        plan.embeds == presence_filter(data.has_embed, has_media_query(*data)),
        plan.files == presence_filter(data.has_file, has_media_query(*data)),
        plan.ascending == data.ascending,
        plan.limit == (if !count || has_difficult_joins(*data) {
            Some((limit + 1) as i16)
        } else {
            None
        }),
{
    let media_query = !media_is_empty(&data.has_media) || !media_is_empty(&data.has_not_media);
    let difficult = data.has_embed.is_some() || media_query || data.has_file.is_some() || data.has_link;
    let single_pin = if data.pin_tags.len() == 1 {
        Some(data.pin_tags[0])
    } else {
        None
    };
    SearchPlan {
        starred_only: data.starred,
        join_pins: data.pin_tags.len() > 1,
        single_pin,
        exclude_pins: !data.pin_not_tags.is_empty(),
        check_pinned: !data.pin_tags.is_empty(),
        embeds: presence_of(data.has_embed, media_query),
        files: presence_of(data.has_file, media_query),
        ascending: data.ascending,
        limit: if !count || difficult {
            Some(limit + 1)
        } else {
            None
        },
    }
}

/// A user may list a room's messages unless the cached permissions say the user cannot
/// read its history (`NotFound`). The result tells whether the permissions were cached,
/// that is whether the query can skip checking them.
pub fn check_listing(cached_read_history: Option<bool>) -> (res: Result<bool, ApiError>)
    ensures
        res == match cached_read_history {
            Some(false) => Err(ApiError::NotFound),
            Some(true) => Ok(true),
            None => Ok(false),
        },
{
    match cached_read_history {
        Some(read) => {
            if !read {
                return Err(ApiError::NotFound);
            }
            Ok(true)
        },
        None => Ok(false),
    }
}

/// The prepared statements of a plain message listing.
#[derive(Debug, Clone, Copy, PartialEq, Eq, Structural)]
pub enum ListingQuery {
    BeforeNoPerm,
    AfterNoPerm,
    ExactNoPerm,
    BeforePerm,
    AfterPerm,
    ExactPerm,
}

/// Chooses the statement of a listing by the cursor (none lists the latest messages) and
/// by whether the permissions were already checked from the cache.
pub fn listing_query(had_perms: bool, query: Option<Cursor>) -> (q: ListingQuery)
    ensures
        q == match (had_perms, query) {
            (true, Some(Cursor::After(_))) => ListingQuery::AfterNoPerm,
            (true, Some(Cursor::Exact(_))) => ListingQuery::ExactNoPerm,
            (true, _) => ListingQuery::BeforeNoPerm,
            (false, Some(Cursor::After(_))) => ListingQuery::AfterPerm,
            (false, Some(Cursor::Exact(_))) => ListingQuery::ExactPerm,
            (false, _) => ListingQuery::BeforePerm,
        },
{
    match (had_perms, query) {
        (true, Some(Cursor::After(_))) => ListingQuery::AfterNoPerm,
        (true, Some(Cursor::Exact(_))) => ListingQuery::ExactNoPerm,
        (true, _) => ListingQuery::BeforeNoPerm,
        (false, Some(Cursor::After(_))) => ListingQuery::AfterPerm,
        (false, Some(Cursor::Exact(_))) => ListingQuery::ExactPerm,
        (false, _) => ListingQuery::BeforePerm,
    }
}

/// How the selected messages compare with the message id of the statement.
#[derive(Debug, Clone, Copy, PartialEq, Eq, Structural)]
pub enum IdFilter {
    Greater,
    Less,
    Equal,
}

/// The order of the selected messages.
#[derive(Debug, Clone, Copy, PartialEq, Eq, Structural)]
pub enum IdOrder {
    Ascending,
    Descending,
    Unordered,
}

/// The shape of a prepared message statement: its id filter and order, whether it is
/// limited to the room parameter (and takes the party from that room), whether messages of
/// users who marked the reader as dangerous are flagged unavailable, and whether it
/// requires the reader's permission to read the room's history.
#[derive(Debug, Clone, Copy, PartialEq, Eq, Structural)]
pub struct MessageQueryShape {
    pub id_filter: IdFilter,
    pub order: IdOrder,
    pub room_filter: bool,
    pub flags_unavailable: bool,
    pub perms_filter: bool,
}

/// The id filter and order of a cursor: after it ascending, before it descending, or the
/// message itself.
pub open spec fn cursor_shape(mode: Cursor) -> (IdFilter, IdOrder) {
    match mode {
        Cursor::After(_) => (IdFilter::Greater, IdOrder::Ascending),
        Cursor::Before(_) => (IdFilter::Less, IdOrder::Descending),
        Cursor::Exact(_) => (IdFilter::Equal, IdOrder::Unordered),
    }
}

/// The shape of the message statement for a cursor (its id is a parameter of the statement),
/// with or without the permission check, a known room and a known reader. Without a room the
/// statement picks a single message.
pub fn message_query(mode: Cursor, check_perms: bool, with_room: bool, with_user: bool) -> (q: MessageQueryShape)
    requires
        !with_room ==> mode is Exact,
    ensures
        q == (MessageQueryShape {
            id_filter: cursor_shape(mode).0,
            order: cursor_shape(mode).1,
            room_filter: with_room,
            flags_unavailable: with_user,
            perms_filter: check_perms,
        }),
{
    let (id_filter, order) = match mode {
        Cursor::After(_) => (IdFilter::Greater, IdOrder::Ascending),
        Cursor::Before(_) => (IdFilter::Less, IdOrder::Descending),
        Cursor::Exact(_) => (IdFilter::Equal, IdOrder::Unordered),
    };
    MessageQueryShape { id_filter, order, room_filter: with_room, flags_unavailable: with_user, perms_filter: check_perms }
}

/// One message, by id alone, without permission check.
pub fn exact_no_perm_no_room() -> (q: MessageQueryShape)
    ensures
        q == (MessageQueryShape {
            id_filter: IdFilter::Equal,
            order: IdOrder::Unordered,
            room_filter: false,
            flags_unavailable: false,
            perms_filter: false,
        }),
{
    message_query(Cursor::Exact(0), false, false, false)
}

/// One message of a room, without permission check.
pub fn exact_no_perm() -> (q: MessageQueryShape)
    ensures
        q == (MessageQueryShape {
            id_filter: IdFilter::Equal,
            order: IdOrder::Unordered,
            room_filter: true,
            flags_unavailable: false,
            perms_filter: false,
        }),
{
    message_query(Cursor::Exact(0), false, true, false)
}

/// Messages of a room before the cursor, by a reader whose permissions were checked.
pub fn wuser_before_no_perm() -> (q: MessageQueryShape)
    ensures
        q == (MessageQueryShape { id_filter: IdFilter::Less, order: IdOrder::Descending, room_filter: true, flags_unavailable: true, perms_filter: false }),
{
    message_query(Cursor::Before(0), false, true, true)
}

/// Messages of a room after the cursor, by a reader whose permissions were checked.
pub fn wuser_after_no_perm() -> (q: MessageQueryShape)
    ensures
        q == (MessageQueryShape { id_filter: IdFilter::Greater, order: IdOrder::Ascending, room_filter: true, flags_unavailable: true, perms_filter: false }),
{
    message_query(Cursor::After(0), false, true, true)
}

/// One message of a room, by a reader whose permissions were checked.
pub fn wuser_exact_no_perm() -> (q: MessageQueryShape)
    ensures
        q == (MessageQueryShape { id_filter: IdFilter::Equal, order: IdOrder::Unordered, room_filter: true, flags_unavailable: true, perms_filter: false }),
{
    message_query(Cursor::Exact(0), false, true, true)
}

/// Messages of a room before the cursor, checking the reader's permissions.
pub fn wuser_before_perm() -> (q: MessageQueryShape)
    ensures
        q == (MessageQueryShape { id_filter: IdFilter::Less, order: IdOrder::Descending, room_filter: true, flags_unavailable: true, perms_filter: true }),
{
    message_query(Cursor::Before(0), true, true, true)
}

/// Messages of a room after the cursor, checking the reader's permissions.
pub fn wuser_after_perm() -> (q: MessageQueryShape)
    ensures
        q == (MessageQueryShape { id_filter: IdFilter::Greater, order: IdOrder::Ascending, room_filter: true, flags_unavailable: true, perms_filter: true }),
{
    message_query(Cursor::After(0), true, true, true)
}

/// One message of a room, checking the reader's permissions.
pub fn wuser_exact_perm() -> (q: MessageQueryShape)
    ensures
        q == (MessageQueryShape { id_filter: IdFilter::Equal, order: IdOrder::Unordered, room_filter: true, flags_unavailable: true, perms_filter: true }),
{
    message_query(Cursor::Exact(0), true, true, true)
}

impl ListingQuery {
    /// The shape of the statement a listing runs.
    pub fn shape(self) -> (q: MessageQueryShape)
        ensures
            q == match self {
                ListingQuery::BeforeNoPerm => message_query_spec(Cursor::Before(0), false),
                ListingQuery::AfterNoPerm => message_query_spec(Cursor::After(0), false),
                ListingQuery::ExactNoPerm => message_query_spec(Cursor::Exact(0), false),
                ListingQuery::BeforePerm => message_query_spec(Cursor::Before(0), true),
                ListingQuery::AfterPerm => message_query_spec(Cursor::After(0), true),
                ListingQuery::ExactPerm => message_query_spec(Cursor::Exact(0), true),
            },
    {
        match self {
            ListingQuery::BeforeNoPerm => wuser_before_no_perm(),
            ListingQuery::AfterNoPerm => wuser_after_no_perm(),
            ListingQuery::ExactNoPerm => wuser_exact_no_perm(),
            ListingQuery::BeforePerm => wuser_before_perm(),
            ListingQuery::AfterPerm => wuser_after_perm(),
            ListingQuery::ExactPerm => wuser_exact_perm(),
        }
    }
}

/// The shape of a listing statement by a reader in a room, for a cursor.
pub open spec fn message_query_spec(mode: Cursor, check_perms: bool) -> MessageQueryShape {
    MessageQueryShape {
        id_filter: cursor_shape(mode).0,
        order: cursor_shape(mode).1,
        room_filter: true,
        flags_unavailable: true,
        perms_filter: check_perms,
    }
}

/// The message id a listing starts from: that of the cursor, or the largest id.
pub fn cursor_message_id(query: Option<Cursor>) -> (id: u64)
    ensures
        id == match query {
            Some(Cursor::After(i)) => i,
            Some(Cursor::Before(i)) => i,
            Some(Cursor::Exact(i)) => i,
            None => u64::MAX,
        },
{
    match query {
        Some(Cursor::After(i)) => i,
        Some(Cursor::Before(i)) => i,
        Some(Cursor::Exact(i)) => i,
        None => u64::MAX,
    }
}

} // verus!

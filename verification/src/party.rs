use vstd::prelude::*;

use crate::error::ApiError;
use crate::login::LenRange;
use crate::permissions::Permissions;
use std::collections::HashMap;

verus! {

use vstd::string::StringSliceAdditionalSpecFns;
use vstd::utf8::encode_utf8;
use vstd::string::StringExecFns;

/// A permission overwrite of a room for one user or role.
#[derive(Debug, Clone, Copy, PartialEq, Eq, Structural)]
pub struct Overwrite {
    pub id: u64,
    pub allow: Permissions,
    pub deny: Permissions,
}

/// Overwrites in the column-wise form the database insert takes.
pub struct RawOverwrites {
    pub id: Vec<u64>,
    pub a1: Vec<i64>,
    pub a2: Vec<i64>,
    pub d1: Vec<i64>,
    pub d2: Vec<i64>,
}

/// An overwrite that allows or denies something.
pub open spec fn is_effective(ow: Overwrite) -> bool {
    !(ow.allow.low == 0 && ow.allow.high == 0 && ow.deny.low == 0 && ow.deny.high == 0)
}

/// Column `k` of `raw` holds the words of `ow`.
pub open spec fn row_matches(raw: RawOverwrites, k: int, ow: Overwrite) -> bool {
    &&& raw.id@[k] == ow.id
    &&& raw.a1@[k] == ow.allow.low
    &&& raw.a2@[k] == ow.allow.high
    &&& raw.d1@[k] == ow.deny.low
    &&& raw.d2@[k] == ow.deny.high
}

/// The number of overwrites in `s` whose id is at most `x`.
pub open spec fn count_at_most(s: Seq<Overwrite>, x: u64) -> nat
    decreases s.len(),
{
    if s.len() == 0 {
        0
    } else {
        count_at_most(s.drop_last(), x) + if s.last().id <= x {
            1nat
        } else {
            0nat
        }
    }
}

proof fn lemma_count_at_most_bound(s: Seq<Overwrite>, x: u64)
    ensures
        count_at_most(s, x) <= s.len(),
    decreases s.len(),
{
    if s.len() > 0 {
        lemma_count_at_most_bound(s.drop_last(), x);
    }
}

proof fn lemma_count_at_most_grows(s: Seq<Overwrite>, x: u64, y: u64, i: int)
    requires
        x < y,
        0 <= i < s.len(),
        s[i].id == y,
    ensures
        count_at_most(s, x) < count_at_most(s, y),
    decreases s.len(),
{
    if i == s.len() - 1 {
        lemma_count_at_most_mono(s.drop_last(), x, y);
    } else {
        lemma_count_at_most_grows(s.drop_last(), x, y, i);
    }
}

proof fn lemma_count_at_most_mono(s: Seq<Overwrite>, x: u64, y: u64)
    requires
        x <= y,
    ensures
        count_at_most(s, x) <= count_at_most(s, y),
    decreases s.len(),
{
    if s.len() > 0 {
        lemma_count_at_most_mono(s.drop_last(), x, y);
    }
}

/// Row `k` of `raw` holds the words of an overwrite of `s` that allows or denies something.
pub open spec fn row_from_effective(raw: RawOverwrites, k: int, s: Seq<Overwrite>) -> bool {
    exists|i: int| 0 <= i < s.len() && #[trigger] row_matches(raw, k, s[i]) && is_effective(s[i])
}

/// Every overwrite in `s` with the given id allows or denies something.
pub open spec fn all_effective(s: Seq<Overwrite>, id: u64) -> bool {
    forall|j: int| 0 <= j < s.len() && s[j].id == id ==> is_effective(#[trigger] s[j])
}

/// What `RawOverwrites::new` yields for the overwrites `ows`: one row per distinct id, in
/// increasing id order, except that overwrites which allow and deny nothing are left out.
/// Where several overwrites share an id, one of them stands for the id (which one is left
/// open, as by an unstable sort), so an id is kept for sure when all its overwrites count.
pub open spec fn raw_overwrites_of(raw: RawOverwrites, ows: Seq<Overwrite>) -> bool {
    &&& raw.a1@.len() == raw.id@.len()
    &&& raw.a2@.len() == raw.id@.len()
    &&& raw.d1@.len() == raw.id@.len()
    &&& raw.d2@.len() == raw.id@.len()
    &&& forall|k1: int, k2: int| 0 <= k1 < k2 < raw.id@.len() ==> raw.id@[k1] < raw.id@[k2]
    &&& forall|k: int| 0 <= k < raw.id@.len() ==> #[trigger] row_from_effective(raw, k, ows)
    &&& forall|i: int| 0 <= i < ows.len() && all_effective(ows, #[trigger] ows[i].id)
        ==> exists|k: int| 0 <= k < raw.id@.len() && raw.id@[k] == ows[i].id
}

/// `id` lies above the bound `last` (every id does when there is none).
pub open spec fn above(last: Option<u64>, id: u64) -> bool {
    match last {
        Some(l) => id > l,
        None => true,
    }
}

/// How many overwrites have an id at or below the bound `last`.
pub open spec fn done_count(s: Seq<Overwrite>, last: Option<u64>) -> nat {
    match last {
        Some(l) => count_at_most(s, l),
        None => 0,
    }
}

proof fn lemma_count_at_most_pos(s: Seq<Overwrite>, y: u64, i: int)
    requires
        0 <= i < s.len(),
        s[i].id == y,
    ensures
        count_at_most(s, y) >= 1,
    decreases s.len(),
{
    if i < s.len() - 1 {
        lemma_count_at_most_pos(s.drop_last(), y, i);
    }
}

/// The index of an overwrite with the smallest id above `last`, if any id lies above it.
fn smallest_above(ows: &Vec<Overwrite>, last: Option<u64>) -> (found: Option<usize>)
    ensures
        match found {
            Some(f) => f < ows.len() && above(last, ows@[f as int].id) && (forall|j: int|
                0 <= j < ows.len() && above(last, #[trigger] ows@[j].id) ==> ows@[f as int].id <= ows@[j].id),
            None => forall|j: int| 0 <= j < ows.len() ==> !above(last, #[trigger] ows@[j].id),
        },
{
    let mut found: Option<usize> = None;
    let mut i: usize = 0;
    while i < ows.len()
        invariant
            i <= ows.len(),
            match found {
                Some(f) => f < i && above(last, ows@[f as int].id) && (forall|j: int|
                    0 <= j < i && above(last, #[trigger] ows@[j].id) ==> ows@[f as int].id <= ows@[j].id),
                None => forall|j: int| 0 <= j < i ==> !above(last, #[trigger] ows@[j].id),
            },
        decreases ows.len() - i,
    {
        let id = ows[i].id;
        let is_above = match last {
            Some(l) => id > l,
            None => true,
        };
        if is_above {
            match found {
                Some(f) => {
                    if id < ows[f].id {
                        found = Some(i);
                    }
                },
                None => {
                    found = Some(i);
                },
            }
        }
        i = i + 1;
    }
    found
}

/// `raw` gained one row holding the words of `ow`.
pub open spec fn pushed_row(old_raw: RawOverwrites, raw: RawOverwrites, ow: Overwrite) -> bool {
    &&& raw.id@ == old_raw.id@.push(ow.id)
    &&& raw.a1@ == old_raw.a1@.push(ow.allow.low)
    &&& raw.a2@ == old_raw.a2@.push(ow.allow.high)
    &&& raw.d1@ == old_raw.d1@.push(ow.deny.low)
    &&& raw.d2@ == old_raw.d2@.push(ow.deny.high)
}

/// The rows collected so far: those of the ids up to `last`.
pub open spec fn collected(raw: RawOverwrites, s: Seq<Overwrite>, last: Option<u64>) -> bool {
    &&& raw.a1@.len() == raw.id@.len()
    &&& raw.a2@.len() == raw.id@.len()
    &&& raw.d1@.len() == raw.id@.len()
    &&& raw.d2@.len() == raw.id@.len()
    &&& forall|k1: int, k2: int| 0 <= k1 < k2 < raw.id@.len() ==> raw.id@[k1] < raw.id@[k2]
    &&& forall|k: int| 0 <= k < raw.id@.len() ==> !above(last, #[trigger] raw.id@[k])
    &&& forall|k: int| 0 <= k < raw.id@.len() ==> #[trigger] row_from_effective(raw, k, s)
    &&& forall|i: int| 0 <= i < s.len() && !above(last, s[i].id) && all_effective(s, #[trigger] s[i].id)
        ==> exists|k: int| 0 <= k < raw.id@.len() && raw.id@[k] == s[i].id
}

proof fn lemma_collected_done(raw: RawOverwrites, s: Seq<Overwrite>, last: Option<u64>)
    requires
        collected(raw, s, last),
        forall|j: int| 0 <= j < s.len() ==> !above(last, #[trigger] s[j].id),
    ensures
        raw_overwrites_of(raw, s),
{
    assert forall|i: int| 0 <= i < s.len() && all_effective(s, #[trigger] s[i].id)
        implies exists|k: int| 0 <= k < raw.id@.len() && raw.id@[k] == s[i].id by {
        assert(!above(last, s[i].id));
    }
}

proof fn lemma_collected_step(
    old_raw: RawOverwrites,
    raw: RawOverwrites,
    s: Seq<Overwrite>,
    old_last: Option<u64>,
    f: int,
)
    requires
        collected(old_raw, s, old_last),
        0 <= f < s.len(),
        above(old_last, s[f].id),
        forall|j: int| 0 <= j < s.len() && above(old_last, #[trigger] s[j].id) ==> s[f].id <= s[j].id,
        is_effective(s[f]) ==> pushed_row(old_raw, raw, s[f]),
        !is_effective(s[f]) ==> raw == old_raw,
    ensures
        collected(raw, s, Some(s[f].id)),
{
    let ow = s[f];
    let last = Some(ow.id);
    let before = old_raw.id@;
    if is_effective(ow) {
        assert(row_matches(raw, before.len() as int, s[f]));
    }
    assert forall|k: int| 0 <= k < raw.id@.len() implies !above(last, #[trigger] raw.id@[k]) by {
        if k < before.len() {
            assert(raw.id@[k] == before[k]);
            assert(!above(old_last, before[k]));
        }
    }
    assert forall|k1: int, k2: int| 0 <= k1 < k2 < raw.id@.len() implies raw.id@[k1] < raw.id@[k2] by {
        if k2 < before.len() {
            assert(raw.id@[k1] == before[k1]);
            assert(raw.id@[k2] == before[k2]);
        } else {
            assert(raw.id@[k1] == before[k1]);
            assert(!above(old_last, before[k1]));
        }
    }
    assert forall|k: int| 0 <= k < raw.id@.len() implies #[trigger] row_from_effective(raw, k, s) by {
        if k < before.len() {
            assert(row_from_effective(old_raw, k, s));
            let i = choose|i: int| 0 <= i < s.len() && #[trigger] row_matches(old_raw, k, s[i]) && is_effective(s[i]);
            assert(row_matches(raw, k, s[i]));
        } else {
            assert(row_matches(raw, k, s[f]));
        }
    }
    assert forall|i: int| 0 <= i < s.len() && !above(last, s[i].id) && all_effective(s, #[trigger] s[i].id)
        implies exists|k: int| 0 <= k < raw.id@.len() && raw.id@[k] == s[i].id by {
        if s[i].id == ow.id {
            assert(is_effective(s[f]));
            assert(raw.id@[before.len() as int] == s[i].id);
        } else {
            assert(!above(old_last, s[i].id));
            let k = choose|k: int| 0 <= k < before.len() && before[k] == s[i].id;
            assert(raw.id@[k] == before[k]);
        }
    }
}

impl RawOverwrites {
    /// Collects overwrites into the column-wise form, one per id in increasing id order,
    /// ignoring pointless overwrites (that allow and deny nothing).
    pub fn new(ows: Vec<Overwrite>) -> (raw: RawOverwrites)
        ensures
            raw_overwrites_of(raw, ows@),
    {
        let ghost s = ows@;
        let mut raw = RawOverwrites {
            id: Vec::new(),
            a1: Vec::new(),
            a2: Vec::new(),
            d1: Vec::new(),
            d2: Vec::new(),
        };
        // ids are visited in increasing order; `last` is the largest id visited so far
        let mut last: Option<u64> = None;
        loop
            invariant
                s == ows@,
                collected(raw, s, last),
                done_count(s, last) <= s.len(),
            ensures
                raw_overwrites_of(raw, s),
            decreases s.len() - done_count(s, last),
        {
            match smallest_above(&ows, last) {
                None => {
                    proof {
                        lemma_collected_done(raw, s, last);
                    }
                    break;
                },
                Some(f) => {
                    let ow = ows[f];
                    let ghost old_last = last;
                    let ghost old_raw = raw;
                    proof {
                        lemma_count_at_most_bound(s, ow.id);
                        match old_last {
                            Some(l) => lemma_count_at_most_grows(s, l, ow.id, f as int),
                            None => lemma_count_at_most_pos(s, ow.id, f as int),
                        }
                    }
                    // ignore pointless overwrites
                    if !(ow.allow.is_empty() && ow.deny.is_empty()) {
                        raw.id.push(ow.id);
                        raw.a1.push(ow.allow.low);
                        raw.a2.push(ow.allow.high);
                        raw.d1.push(ow.deny.low);
                        raw.d2.push(ow.deny.high);
                    }
                    last = Some(ow.id);
                    proof {
                        lemma_collected_step(old_raw, raw, s, old_last, f as int);
                    }
                },
            }
        }
        raw
    }
}

/// Checks on a request to create a room, made with what one query returns: the room name
/// must have an allowed byte length (`InvalidName`); the user must be a member of the
/// party with the permission to manage rooms (`Unauthorized` when `counts` is `None`); and
/// the party must be below both room limits (`Unauthorized`). `counts` are the party's
/// total and live room counts.
pub fn check_create_room(
    name_len: LenRange,
    name: &str,
    counts: Option<(i32, i32)>,
    max_rooms: i32,
    max_active_rooms: i32,
) -> (res: Result<(), ApiError>)
    ensures
        res == (if !(name_len.start <= name.spec_bytes().len() < name_len.end) {
            Err(ApiError::InvalidName)
        } else {
            match counts {
                None => Err(ApiError::Unauthorized),
                Some((total, live)) => if total >= max_rooms || live >= max_active_rooms {
                    Err(ApiError::Unauthorized)
                } else {
                    Ok(())
                },
            }
        }),
{
    if !name_len.contains(name.as_bytes().len()) {
        return Err(ApiError::InvalidName);
    }
    match counts {
        None => Err(ApiError::Unauthorized),
        Some((total, live)) => {
            if total >= max_rooms || live >= max_active_rooms {
                Err(ApiError::Unauthorized)
            } else {
                Ok(())
            }
        },
    }
}

/// Every overwrite row must have been inserted: one that named a user outside the party or
/// a role of another party leaves a row out, which is a `BadRequest`.
pub fn check_overwrites_inserted(num_inserted: u64, raw: &RawOverwrites) -> (res: Result<(), ApiError>)
    ensures
        res == (if num_inserted == raw.id@.len() {
            Ok::<(), ApiError>(())
        } else {
            Err(ApiError::BadRequest)
        }),
{
    if num_inserted != raw.id.len() as u64 {
        return Err(ApiError::BadRequest);
    }
    Ok(())
}

/// The fields of a request that creates a party.
pub struct PartyCreateForm {
    pub name: String,
    pub description: Option<String>,
    /// Security flag bits of the party.
    pub security: i32,
}

/// Checks the name of a new party: its byte length must be allowed (`InvalidName`).
pub fn check_party_name(name_len: LenRange, form: &PartyCreateForm) -> (res: Result<(), ApiError>)
    ensures
        res == (if name_len.start <= encode_utf8(form.name@).len() < name_len.end {
            Ok::<(), ApiError>(())
        } else {
            Err(ApiError::InvalidName)
        }),
{
    if !name_len.contains(form.name.as_str().as_bytes().len()) {
        return Err(ApiError::InvalidName);
    }
    Ok(())
}

/// The default role of a new party.
pub struct NewRole {
    pub id: u64,
    pub party_id: u64,
    pub name: String,
    pub permissions: Permissions,
    pub position: i16,
}

/// The default room of a new party.
pub struct NewRoom {
    pub id: u64,
    pub party_id: u64,
    pub name: String,
    pub position: i16,
}

/// A party as it is created, with its default role and room.
pub struct NewParty {
    pub id: u64,
    pub name: String,
    pub description: Option<String>,
    pub owner: u64,
    pub default_room: u64,
    pub security: i32,
    /// The party's position in its owner's list.
    pub position: i16,
    pub roles: Vec<NewRole>,
    pub room: NewRoom,
}

/// The party that `form` creates for `owner`, with the new ids `party_id` and `room_id`:
/// it has one role, `@everyone`, whose id is the party's, at position 0 with the default
/// permissions, and one room, `general`, at position 0, which is its default room; it comes
/// after the last party of the owner's list (first in an empty list).
pub fn new_party(
    form: PartyCreateForm,
    owner: u64,
    party_id: u64,
    room_id: u64,
    default_permissions: Permissions,
    max_position: Option<i16>,
) -> (p: NewParty)
    requires
        max_position matches Some(m) ==> m < i16::MAX,
    ensures
        p.id == party_id,
        p.name == form.name,
        p.description == form.description,
        p.owner == owner,
        p.default_room == room_id,
        p.security == form.security,
        p.position == match max_position {
            Some(m) => m + 1,
            None => 0,
        },
        p.roles@.len() == 1,
        p.roles@[0].id == party_id,
        p.roles@[0].party_id == party_id,
        p.roles@[0].name@ == "@everyone"@,
        p.roles@[0].permissions == default_permissions,
        p.roles@[0].position == 0,
        p.room.id == room_id,
        p.room.party_id == party_id,
        p.room.name@ == "general"@,
        p.room.position == 0,
{
    let role = NewRole {
        id: party_id,
        party_id,
        name: String::from_str("@everyone"),
        permissions: default_permissions,
        position: 0,
    };
    let room = NewRoom { id: room_id, party_id, name: String::from_str("general"), position: 0 };
    let mut roles: Vec<NewRole> = Vec::new();
    roles.push(role);
    NewParty {
        id: party_id,
        name: form.name,
        description: form.description,
        owner,
        default_room: room_id,
        security: form.security,
        position: next_party_position(max_position),
        roles,
        room,
    }
}

/// The position of a newly joined party in the user's list: after the last one, or first
/// when the user is in no party.
pub fn next_party_position(max_position: Option<i16>) -> (pos: i16)
    requires
        max_position matches Some(m) ==> m < i16::MAX,
    ensures
        pos == match max_position {
            Some(m) => m + 1,
            None => 0,
        },
{
    match max_position {
        Some(m) => m + 1,
        None => 0,
    }
}

/// The counts of the messages of one room that a party's statistics report.
#[derive(Debug, Clone, Copy, PartialEq, Eq, Structural)]
pub struct RoomStatistics {
    pub messages: u64,
    pub files: u64,
    pub prefixed: u64,
}

/// One row of the statistics query: a room, the number of its messages, of the files
/// attached to them, and of those that match the requested prefix.
#[derive(Debug, Clone, Copy, PartialEq, Eq, Structural)]
pub struct StatsRow {
    pub room_id: u64,
    pub total: i64,
    pub file_count: i64,
    pub prefixed: i64,
}

/// The statistics of a row, each count read as unsigned.
pub open spec fn row_statistics(r: StatsRow) -> RoomStatistics {
    RoomStatistics { messages: r.total as u64, files: r.file_count as u64, prefixed: r.prefixed as u64 }
}

/// The statistics by room that the rows give, in order (a later row of a room wins).
pub open spec fn statistics_of(rows: Seq<StatsRow>) -> Map<u64, RoomStatistics>
    decreases rows.len(),
{
    if rows.len() == 0 {
        Map::empty()
    } else {
        statistics_of(rows.drop_last()).insert(rows.last().room_id, row_statistics(rows.last()))
    }
}

/// Gathers the rows of the statistics query into statistics by room.
pub fn room_statistics(rows: &Vec<StatsRow>) -> (stats: HashMap<u64, RoomStatistics>)
    ensures
        stats@ == statistics_of(rows@),
{
    let mut rooms: HashMap<u64, RoomStatistics> = HashMap::new();
    let n = rows.len();
    let mut i: usize = 0;
    while i < n
        invariant
            n == rows.len(),
            i <= n,
            rooms@ == statistics_of(rows@.take(i as int)),
        decreases n - i,
    {
        let r = rows[i];
        rooms.insert(
            r.room_id,
            RoomStatistics { messages: r.total as u64, files: r.file_count as u64, prefixed: r.prefixed as u64 },
        );
        assert(rows@.take(i + 1).drop_last() =~= rows@.take(i as int));
        i = i + 1;
    }
    assert(rows@.take(n as int) =~= rows@);
    rooms
}

} // verus!

use vstd::prelude::*;

use crate::error::ApiError;

verus! {

use vstd::string::StringSliceAdditionalSpecFns;

/// A field of an update that may be left out (`Undefined`), cleared (`Null`), or set to a
/// value (`Value`).
#[derive(Debug, PartialEq, Eq, Structural)]
pub enum Nullable<T> {
    Undefined,
    Null,
    Value(T),
}

/// The byte length of a text field is within `max`, if it is set.
pub open spec fn text_within(field: Nullable<&str>, max: usize) -> bool {
    match field {
        Nullable::Value(t) => t.spec_bytes().len() <= max,
        _ => true,
    }
}

/// A profile update may set a custom status and a biography of bounded byte length.
pub fn check_profile_texts(
    status: Nullable<&str>,
    bio: Nullable<&str>,
    max_status_len: usize,
    max_bio_len: usize,
) -> (res: Result<(), ApiError>)
    ensures
        res == (if text_within(status, max_status_len) && text_within(bio, max_bio_len) {
            Ok::<(), ApiError>(())
        } else {
            Err(ApiError::BadRequest)
        }),
{
    match status {
        Nullable::Value(s) => {
            if s.as_bytes().len() > max_status_len {
                return Err(ApiError::BadRequest);
            }
        },
        _ => {},
    }
    match bio {
        Nullable::Value(b) => {
            if b.as_bytes().len() > max_bio_len {
                return Err(ApiError::BadRequest);
            }
        },
        _ => {},
    }
    Ok(())
}

/// An update touches the avatar or the banner, which takes looking up the current files.
pub fn touches_assets(avatar: Nullable<u64>, banner: Nullable<u64>) -> (b: bool)
    ensures
        b == (avatar != Nullable::<u64>::Undefined || banner != Nullable::<u64>::Undefined),
{
    let a = match avatar {
        Nullable::Undefined => false,
        _ => true,
    };
    let b = match banner {
        Nullable::Undefined => false,
        _ => true,
    };
    a || b
}

/// The current value of a field, in the form of an update that sets it.
pub open spec fn as_update(current: Option<u64>) -> Nullable<u64> {
    match current {
        Some(id) => Nullable::Value(id),
        None => Nullable::Null,
    }
}

/// A requested file that is the one already set is no change: it is left out.
pub fn skip_unchanged(current: Option<u64>, requested: Nullable<u64>) -> (r: Nullable<u64>)
    ensures
        r == (if as_update(current) == requested {
            Nullable::Undefined
        } else {
            requested
        }),
{
    let same = match (current, &requested) {
        (Some(c), Nullable::Value(q)) => c == *q,
        (None, Nullable::Null) => true,
        _ => false,
    };
    if same {
        Nullable::Undefined
    } else {
        requested
    }
}

/// Setting a nickname takes the permission to change it.
pub fn check_nickname(may_change_nickname: bool, nick: Nullable<&str>) -> (res: Result<(), ApiError>)
    ensures
        res == (if !may_change_nickname && nick is Value {
            Err(ApiError::Unauthorized)
        } else {
            Ok::<(), ApiError>(())
        }),
{
    let sets = match nick {
        Nullable::Value(_) => true,
        _ => false,
    };
    if !may_change_nickname && sets {
        Err(ApiError::Unauthorized)
    } else {
        Ok(())
    }
}

/// Saving a profile writes a row; none written is an internal error.
pub fn check_profile_saved(rows: u64) -> (res: Result<(), ApiError>)
    ensures
        res == (if rows == 0 {
            Err(ApiError::InternalError)
        } else {
            Ok::<(), ApiError>(())
        }),
{
    if rows == 0 {
        Err(ApiError::InternalError)
    } else {
        Ok(())
    }
}

/// A stored profile, global or for one party.
#[derive(Debug, PartialEq, Eq)]
pub struct RawProfile {
    pub bits: i32,
    pub nick: Option<String>,
    pub avatar: Option<u64>,
    pub banner: Option<u64>,
    pub status: Option<String>,
    pub bio: Option<String>,
}

/// The profile bits that belong to the avatar and to the banner.
#[derive(Debug, Clone, Copy, PartialEq, Eq, Structural)]
pub struct ProfileBitMasks {
    pub avatar_roundness: i32,
    pub override_color: i32,
    pub primary_color: i32,
}

/// The first of two optional values that is there.
pub open spec fn coalesce<T>(first: Option<T>, second: Option<T>) -> Option<T> {
    match first {
        Some(v) => Some(v),
        None => second,
    }
}

/// The bits of a party profile laid over the global one: the avatar bits come from the
/// party profile if it has its own avatar, the banner colour bits if it overrides the
/// colour; otherwise they come from the global profile.
pub open spec fn merged_bits(party: RawProfile, base_bits: i32, masks: ProfileBitMasks) -> i32 {
    let avatar_bits = if party.avatar is None {
        base_bits
    } else {
        party.bits
    };
    let banner_bits = if (party.bits & masks.override_color) != masks.override_color {
        base_bits
    } else {
        party.bits
    };
    (avatar_bits & masks.avatar_roundness) | (banner_bits & (masks.override_color | masks.primary_color))
}

/// A party profile laid over the global one: each field the party profile leaves empty
/// comes from the global profile.
pub open spec fn merged_profile(party: RawProfile, base: RawProfile, masks: ProfileBitMasks) -> RawProfile {
    RawProfile {
        bits: merged_bits(party, base.bits, masks),
        nick: coalesce(party.nick, base.nick),
        avatar: coalesce(party.avatar, base.avatar),
        banner: coalesce(party.banner, base.banner),
        status: coalesce(party.status, base.status),
        bio: coalesce(party.bio, base.bio),
    }
}

/// A party profile laid over the global one shows each of its own texts and images that it
/// has (nickname, avatar, banner, status, biography), and the global one's where it has
/// none.
pub proof fn lemma_party_fields_first(party: RawProfile, base: RawProfile, masks: ProfileBitMasks)
    ensures
        party.nick is Some ==> merged_profile(party, base, masks).nick == party.nick,
        party.avatar is Some ==> merged_profile(party, base, masks).avatar == party.avatar,
        party.banner is Some ==> merged_profile(party, base, masks).banner == party.banner,
        party.status is Some ==> merged_profile(party, base, masks).status == party.status,
        party.bio is Some ==> merged_profile(party, base, masks).bio == party.bio,
        party.nick is None ==> merged_profile(party, base, masks).nick == base.nick,
        party.avatar is None ==> merged_profile(party, base, masks).avatar == base.avatar,
        party.banner is None ==> merged_profile(party, base, masks).banner == base.banner,
        party.status is None ==> merged_profile(party, base, masks).status == base.status,
        party.bio is None ==> merged_profile(party, base, masks).bio == base.bio,
{
}

/// Where the masks do not overlap, the bits of a party profile laid over the global one
/// take the avatar bits from the party profile exactly when it has an avatar, the banner
/// colour bits from it exactly when it overrides the colour, and no other bit.
pub proof fn lemma_merged_bits_sources(party: RawProfile, base_bits: i32, masks: ProfileBitMasks)
    requires
        masks.avatar_roundness & (masks.override_color | masks.primary_color) == 0,
    ensures
        party.avatar is Some ==> merged_bits(party, base_bits, masks) & masks.avatar_roundness == party.bits
            & masks.avatar_roundness,
        party.avatar is None ==> merged_bits(party, base_bits, masks) & masks.avatar_roundness == base_bits
            & masks.avatar_roundness,
        (party.bits & masks.override_color) == masks.override_color ==> merged_bits(party, base_bits, masks)
            & (masks.override_color | masks.primary_color) == party.bits & (masks.override_color
            | masks.primary_color),
        (party.bits & masks.override_color) != masks.override_color ==> merged_bits(party, base_bits, masks)
            & (masks.override_color | masks.primary_color) == base_bits & (masks.override_color
            | masks.primary_color),
        merged_bits(party, base_bits, masks) & !(masks.avatar_roundness | masks.override_color | masks.primary_color)
            == 0,
{
    let ar = masks.avatar_roundness;
    let cm = masks.override_color | masks.primary_color;
    let oc = masks.override_color;
    let pc = masks.primary_color;
    let a = if party.avatar is None { base_bits } else { party.bits };
    let b = if (party.bits & oc) != oc { base_bits } else { party.bits };
    assert(((a & ar) | (b & cm)) & ar == a & ar) by (bit_vector)
        requires
            ar & cm == 0,
    ;
    assert(((a & ar) | (b & cm)) & cm == b & cm) by (bit_vector)
        requires
            ar & cm == 0,
    ;
    assert(((a & ar) | (b & (oc | pc))) & !(ar | oc | pc) == 0) by (bit_vector);
}

/// The empty profile.
pub open spec fn empty_profile() -> RawProfile {
    RawProfile { bits: 0, nick: None, avatar: None, banner: None, status: None, bio: None }
}

fn or_else<T>(first: Option<T>, second: Option<T>) -> (r: Option<T>)
    ensures
        r == coalesce(first, second),
{
    match first {
        Some(v) => Some(v),
        None => second,
    }
}

/// The profile a user shows, from the global profile and, when asked for a party, the
/// party profile: the one that exists, or the party one laid over the global one.
pub fn effective_profile(base: Option<RawProfile>, party: Option<RawProfile>, masks: ProfileBitMasks) -> (p: RawProfile)
    ensures
        p == match (base, party) {
            (None, None) => empty_profile(),
            (Some(b), None) => b,
            (None, Some(q)) => q,
            (Some(b), Some(q)) => merged_profile(q, b, masks),
        },
        party matches Some(q) ==> {
            &&& (q.nick is Some ==> p.nick == q.nick)
            &&& (q.avatar is Some ==> p.avatar == q.avatar)
            &&& (q.banner is Some ==> p.banner == q.banner)
            &&& (q.status is Some ==> p.status == q.status)
            &&& (q.bio is Some ==> p.bio == q.bio)
        },
        match (base, party) {
            (Some(b), Some(q)) => {
                &&& (q.nick is None ==> p.nick == b.nick)
                &&& (q.avatar is None ==> p.avatar == b.avatar)
                &&& (q.banner is None ==> p.banner == b.banner)
                &&& (q.status is None ==> p.status == b.status)
                &&& (q.bio is None ==> p.bio == b.bio)
            },
            _ => true,
        },
{
    proof {
        if base is Some && party is Some {
            lemma_party_fields_first(party->0, base->0, masks);
        }
    }
    match (base, party) {
        (None, None) => RawProfile { bits: 0, nick: None, avatar: None, banner: None, status: None, bio: None },
        (Some(b), None) => b,
        (None, Some(q)) => q,
        (Some(b), Some(q)) => {
            let avatar_bits = if q.avatar.is_none() {
                b.bits
            } else {
                q.bits
            };
            let banner_bits = if (q.bits & masks.override_color) != masks.override_color {
                b.bits
            } else {
                q.bits
            };
            let bits = (avatar_bits & masks.avatar_roundness) | (banner_bits & (masks.override_color
                | masks.primary_color));
            RawProfile {
                bits,
                nick: or_else(q.nick, b.nick),
                avatar: or_else(q.avatar, b.avatar),
                banner: or_else(q.banner, b.banner),
                status: or_else(q.status, b.status),
                bio: or_else(q.bio, b.bio),
            }
        },
    }
}

/// Which fields of a stored profile an update overwrites: those it does not leave out
/// (the bits always).
#[derive(Debug, Clone, Copy, PartialEq, Eq, Structural)]
pub struct ProfileColumns {
    pub avatar: bool,
    pub banner: bool,
    pub nick: bool,
    pub status: bool,
    pub bio: bool,
}

/// The fields an update overwrites.
pub fn updated_columns(
    avatar: Nullable<u64>,
    banner: Nullable<u64>,
    nick: Nullable<&str>,
    status: Nullable<&str>,
    bio: Nullable<&str>,
) -> (c: ProfileColumns)
    ensures
        c.avatar == !(avatar is Undefined),
        c.banner == !(banner is Undefined),
        c.nick == !(nick is Undefined),
        c.status == !(status is Undefined),
        c.bio == !(bio is Undefined),
{
    ProfileColumns {
        avatar: !matches!(avatar, Nullable::Undefined),
        banner: !matches!(banner, Nullable::Undefined),
        nick: !matches!(nick, Nullable::Undefined),
        status: !matches!(status, Nullable::Undefined),
        bio: !matches!(bio, Nullable::Undefined),
    }
}

} // verus!

use vstd::prelude::*;

use crate::error::ApiError;
use crate::messages::same_text;
use crate::permissions::Permissions;

verus! {

/// How the database refused to redeem an invite.
pub enum RedeemFailure {
    /// The redeeming procedure raised an exception with this message.
    Raised(String),
    /// A uniqueness constraint, named if the database names it, was violated.
    UniqueViolation(Option<String>),
    /// Any other failure.
    Other,
}

/// The error a refused redemption is reported as, when it is one the handler knows: a
/// banned user is a `BadRequest`, an unknown or used-up invite is `NotFound`, and a user
/// already in the party is a `Conflict`. `None` leaves the database error as it is.
pub fn redeem_error(failure: &RedeemFailure) -> (err: Option<ApiError>)
    ensures
        err == match failure {
            RedeemFailure::Raised(m) => if m@ == "user_banned"@ {
                Some(ApiError::BadRequest)
            } else if m@ == "invalid_invite"@ {
                Some(ApiError::NotFound)
            } else {
                None
            },
            RedeemFailure::UniqueViolation(Some(c)) => if c@ == "party_member_pk"@ {
                Some(ApiError::Conflict)
            } else {
                None
            },
            _ => None,
        },
{
    match failure {
        RedeemFailure::Raised(m) => {
            if same_text(m.as_str(), "user_banned") {
                Some(ApiError::BadRequest)
            } else if same_text(m.as_str(), "invalid_invite") {
                Some(ApiError::NotFound)
            } else {
                None
            }
        },
        RedeemFailure::UniqueViolation(Some(c)) => {
            if same_text(c.as_str(), "party_member_pk") {
                Some(ApiError::Conflict)
            } else {
                None
            }
        },
        _ => None,
    }
}

/// Whether a user may see who made an invite and how many uses it has left: only a member
/// of the party (whose permission words the lookup found), and then the maker of the
/// invite or one who has some bit of `manage_party`.
pub fn can_view_metadata(
    member_perms: Option<(i64, i64)>,
    inviter: u64,
    user_id: u64,
    manage_party: Permissions,
) -> (b: bool)
    ensures
        b == match member_perms {
            Some((low, high)) => inviter == user_id || Permissions { low, high }.spec_intersects(manage_party),
            None => false,
        },
{
    match member_perms {
        Some((low, high)) => inviter == user_id || Permissions::from_i64(low, high).intersects(manage_party),
        None => false,
    }
}

/// What an invite shows of its maker and of its remaining uses (read as unsigned).
pub fn invite_metadata(can_view: bool, inviter: u64, uses: Option<i16>) -> (res: (Option<u64>, Option<u16>))
    ensures
        res == (if can_view {
            (Some(inviter), match uses {
                Some(u) => Some(u as u16),
                None => None,
            })
        } else {
            (None, None)
        }),
{
    if can_view {
        let remaining = match uses {
            Some(u) => Some(u as u16),
            None => None,
        };
        (Some(inviter), remaining)
    } else {
        (None, None)
    }
}

/// A party member may revoke an invite they made, or any invite of the party with every
/// bit of `manage_party`.
pub fn can_revoke_invite(inviter: u64, user_id: u64, member_perms: (i64, i64), manage_party: Permissions) -> (b: bool)
    ensures
        b == (inviter == user_id || (Permissions { low: member_perms.0, high: member_perms.1 }).spec_contains(manage_party)),
{
    inviter == user_id || Permissions::from_i64(member_perms.0, member_perms.1).contains(manage_party)
}

} // verus!

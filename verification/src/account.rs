use rand::distributions::DistString;
use vstd::prelude::*;

use crate::error::ApiError;
use crate::messages::same_text;

verus! {

use vstd::string::StringExecFns;

/// A friendship between two users is stored once, under the smaller id first, with a flag
/// telling whether the second user of the pair asked for it.
#[derive(Debug, Clone, Copy, PartialEq, Eq, Structural)]
pub struct FriendPair {
    pub user_a: u64,
    pub user_b: u64,
    pub added_by_b: bool,
}

/// The stored pair for a friendship that `me` asks for with `other`.
pub open spec fn pair_of(me: u64, other: u64) -> FriendPair {
    if me < other {
        FriendPair { user_a: me, user_b: other, added_by_b: false }
    } else {
        FriendPair { user_a: other, user_b: me, added_by_b: true }
    }
}

/// The stored pair for a friendship that `me` asks for with `other`.
pub fn friend_pair(me: u64, other: u64) -> (p: FriendPair)
    ensures
        p == pair_of(me, other),
{
    if me < other {
        FriendPair { user_a: me, user_b: other, added_by_b: false }
    } else {
        FriendPair { user_a: other, user_b: me, added_by_b: true }
    }
}

/// The two users of a pair are stored in increasing order, and whichever of the two asks,
/// the same row is meant, with the flag telling who asked.
pub proof fn lemma_friend_pair_order(me: u64, other: u64)
    requires
        me != other,
    ensures
        pair_of(me, other).user_a < pair_of(me, other).user_b,
        pair_of(me, other).user_a == pair_of(other, me).user_a,
        pair_of(me, other).user_b == pair_of(other, me).user_b,
        pair_of(me, other).added_by_b != pair_of(other, me).added_by_b,
{
}

/// A request that had to change a row (add a friend, block a user) fails when none
/// changed: the other user cannot be befriended or blocked.
pub fn check_changed(rows: u64) -> (res: Result<(), ApiError>)
    ensures
        res == (if rows == 0 {
            Err(ApiError::Unauthorized)
        } else {
            Ok::<(), ApiError>(())
        }),
{
    if rows == 0 {
        Err(ApiError::Unauthorized)
    } else {
        Ok(())
    }
}

/// How a user relates to another.
#[derive(Debug, Clone, Copy, PartialEq, Eq, Structural)]
pub enum UserRelationship {
    NoRelation,
    Friend,
    Blocked,
    BlockedDangerous,
}

/// A friendship is pending while only one side has it.
pub fn relationship_pending(mine: UserRelationship, theirs: UserRelationship) -> (b: bool)
    ensures
        b == (mine == UserRelationship::Friend && theirs == UserRelationship::NoRelation),
{
    match (mine, theirs) {
        (UserRelationship::Friend, UserRelationship::NoRelation) => true,
        _ => false,
    }
}

/// The fields of a request that changes a user's account.
pub struct ModifyAccountForm {
    pub password: String,
    pub totp: Option<String>,
    pub new_username: Option<String>,
    pub new_email: Option<String>,
}

/// An account change must change something: a new username or a new email (`BadRequest`
/// otherwise). The result is the number of fields changed.
pub fn count_account_fields(form: &ModifyAccountForm) -> (res: Result<u32, ApiError>)
    ensures
        res == (if form.new_username is None && form.new_email is None {
            Err(ApiError::BadRequest)
        } else {
            Ok::<u32, ApiError>(
                ((if form.new_username is Some { 1int } else { 0int }) + (if form.new_email is Some { 1int } else { 0int })) as u32,
            )
        }),
{
    let mut num_fields: u32 = 0;
    if form.new_username.is_some() {
        num_fields = num_fields + 1;
    }
    if form.new_email.is_some() {
        num_fields = num_fields + 1;
    }
    if num_fields == 0 {
        return Err(ApiError::BadRequest);
    }
    Ok(num_fields)
}

/// Renaming a user to the name they have, and changing nothing else, does nothing.
pub fn is_noop_rename(old_username: &str, new_username: Option<&str>, num_fields: u32) -> (b: bool)
    ensures
        b == (new_username matches Some(n) && n@ == old_username@ && num_fields == 1),
{
    match new_username {
        Some(n) => same_text(n, old_username) && num_fields == 1,
        None => false,
    }
}

/// A user with two-factor authentication must give a token (`TOTPRequired`).
pub fn check_mfa_token_given(has_mfa: bool, token_given: bool) -> (res: Result<(), ApiError>)
    ensures
        res == (if has_mfa && !token_given {
            Err(ApiError::TOTPRequired)
        } else {
            Ok::<(), ApiError>(())
        }),
{
    if has_mfa && !token_given {
        Err(ApiError::TOTPRequired)
    } else {
        Ok(())
    }
}

/// A password or token that did not check out is `InvalidCredentials`.
pub fn check_credentials(valid: bool) -> (res: Result<(), ApiError>)
    ensures
        res == (if valid {
            Ok::<(), ApiError>(())
        } else {
            Err(ApiError::InvalidCredentials)
        }),
{
    if valid {
        Ok(())
    } else {
        Err(ApiError::InvalidCredentials)
    }
}

/// Registering takes an email that no account uses (`AlreadyExists`) and a user old
/// enough (`InsufficientAge`); the age is checked first.
pub fn check_registration(of_age: bool, email_taken: bool) -> (res: Result<(), ApiError>)
    ensures
        res == (if !of_age {
            Err(ApiError::InsufficientAge)
        } else if email_taken {
            Err(ApiError::AlreadyExists)
        } else {
            Ok::<(), ApiError>(())
        }),
{
    if !of_age {
        return Err(ApiError::InsufficientAge);
    }
    if email_taken {
        return Err(ApiError::AlreadyExists);
    }
    Ok(())
}

/// What of a party member's user a viewer sees.
#[derive(Debug, Clone, Copy, PartialEq, Eq, Structural)]
pub struct MemberVisibility {
    pub presence: bool,
    pub last_active: bool,
    pub nick_and_status: bool,
    pub banner_and_bio: bool,
}

/// The member has not blocked the viewer (relationships are ordered: none, friend,
/// blocked, blocked as dangerous).
pub open spec fn friendly(theirs: UserRelationship) -> bool {
    theirs == UserRelationship::NoRelation || theirs == UserRelationship::Friend
}

/// What a viewer sees of a party member, given how the member relates to the viewer and
/// whether the full member was asked for: a member who blocked the viewer shows no
/// presence and no profile texts; the last activity, banner and biography come only with
/// the full member.
pub fn member_visibility(theirs: UserRelationship, full: bool) -> (v: MemberVisibility)
    ensures
        v == (MemberVisibility {
            presence: friendly(theirs),
            last_active: friendly(theirs) && full,
            nick_and_status: friendly(theirs),
            banner_and_bio: full && friendly(theirs),
        }),
{
    let is_friendly = match theirs {
        UserRelationship::NoRelation | UserRelationship::Friend => true,
        _ => false,
    };
    MemberVisibility {
        presence: is_friendly,
        last_active: is_friendly && full,
        nick_and_status: is_friendly,
        banner_and_bio: full && is_friendly,
    }
}

/// What a viewer sees of another user's profile and activity.
#[derive(Debug, Clone, Copy, PartialEq, Eq, Structural)]
pub struct UserVisibility {
    pub last_active: bool,
    pub banner_status_bio: bool,
}

/// A user shows the last activity only to associated users (sharing a party or friends)
/// and only if the user allows it; banner, status and biography only to associated users.
pub fn user_visibility(associated: bool, allows_last_active: bool) -> (v: UserVisibility)
    ensures
        v == (UserVisibility { last_active: associated && allows_last_active, banner_status_bio: associated }),
{
    UserVisibility { last_active: associated && allows_last_active, banner_status_bio: associated }
}

/// An ASCII letter or digit.
pub open spec fn is_ascii_alphanumeric(c: char) -> bool {
    ('0' <= c <= '9') || ('A' <= c <= 'Z') || ('a' <= c <= 'z')
}

/// Appends `n` random ASCII letters and digits to `s`.
///
/// Trusted: calls `rand::distributions::Alphanumeric.append_string` with the thread-local
/// generator, which appends `n` characters drawn from `A-Z`, `a-z` and `0-9`. Which ones
/// depends on chance and is left open.
#[verifier::external_body]
fn append_alphanumeric(s: String, n: usize) -> (r: String)
    ensures
        r@.len() == s@.len() + n,
        r@.subrange(0, s@.len() as int) == s@,
        forall|i: int| s@.len() <= i < r@.len() ==> is_ascii_alphanumeric(#[trigger] r@[i]),
{
    let mut s = s;
    rand::distributions::Alphanumeric.append_string(&mut rand::thread_rng(), &mut s, n);
    s
}

/// The name a deleted user is renamed to: `DeletedUser ` and ten random letters or digits.
pub fn deleted_username() -> (name: String)
    ensures
        name@.len() == 22,
        name@.subrange(0, 12) == "DeletedUser "@,
        forall|i: int| 12 <= i < 22 ==> is_ascii_alphanumeric(#[trigger] name@[i]),
{
    let prefix = String::from_str("DeletedUser ");
    proof {
        reveal_strlit("DeletedUser ");
    }
    append_alphanumeric(prefix, 10)
}

} // verus!

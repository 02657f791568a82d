use vstd::prelude::*;

use crate::error::ApiError;

verus! {

/// Announcing that one types takes the permission to send messages; a user without it
/// is told the room does not exist.
pub fn check_typing(may_send: bool) -> (res: Result<(), ApiError>)
    ensures
        res == (if may_send {
            Ok::<(), ApiError>(())
        } else {
            Err(ApiError::NotFound)
        }),
{
    if !may_send {
        return Err(ApiError::NotFound);
    }
    Ok(())
}

/// What a reaction is made with: a custom emote or a standard emoji.
#[derive(Debug, Clone, Copy, PartialEq, Eq, Structural)]
pub enum EmoteOrEmojiId {
    Emote(u64),
    Emoji(i32),
}

impl EmoteOrEmojiId {
    /// The emote id, for a custom emote.
    pub fn emote(&self) -> (id: Option<u64>)
        ensures
            id == match *self {
                EmoteOrEmojiId::Emote(e) => Some(e),
                EmoteOrEmojiId::Emoji(_) => None,
            },
    {
        match *self {
            EmoteOrEmojiId::Emote(e) => Some(e),
            EmoteOrEmojiId::Emoji(_) => None,
        }
    }

    /// The emoji id, for a standard emoji.
    pub fn emoji(&self) -> (id: Option<i32>)
        ensures
            id == match *self {
                EmoteOrEmojiId::Emote(_) => None,
                EmoteOrEmojiId::Emoji(j) => Some(j),
            },
    {
        match *self {
            EmoteOrEmojiId::Emote(_) => None,
            EmoteOrEmojiId::Emoji(j) => Some(j),
        }
    }
}

/// Reacting takes the permission to add reactions.
pub fn check_add_reaction(may_add: bool) -> (res: Result<(), ApiError>)
    ensures
        res == (if may_add {
            Ok::<(), ApiError>(())
        } else {
            Err(ApiError::Unauthorized)
        }),
{
    if !may_add {
        return Err(ApiError::Unauthorized);
    }
    Ok(())
}

/// The outcome of adding a reaction, from what the statement returned: no row means the
/// message or the emote was out of reach (`Unauthorized`); a row names the message when
/// the user's reaction was new, which is then announced.
pub fn reaction_added(row: Option<Option<u64>>) -> (res: Result<Option<u64>, ApiError>)
    ensures
        res == match row {
            None => Err(ApiError::Unauthorized),
            Some(msg) => Ok::<Option<u64>, ApiError>(msg),
        },
{
    match row {
        None => Err(ApiError::Unauthorized),
        Some(msg) => Ok(msg),
    }
}

/// Removing one's reaction takes being able to read the room's history. The result tells
/// whether the statement must check the permissions itself, as none are cached.
pub fn check_remove_reaction(cached_read_history: Option<bool>) -> (res: Result<bool, ApiError>)
    ensures
        res == match cached_read_history {
            Some(false) => Err(ApiError::Unauthorized),
            Some(true) => Ok(false),
            None => Ok::<bool, ApiError>(true),
        },
{
    match cached_read_history {
        Some(read) => {
            if !read {
                return Err(ApiError::Unauthorized);
            }
            Ok(false)
        },
        None => Ok(true),
    }
}

} // verus!

//! Request-handling rules of the Lantern chat server backend: input validation,
//! permission and session caches, search-term processing, upload bookkeeping and
//! the decisions that the HTTP and database layers act upon.

pub mod error;
mod outside_types;
pub mod metrics;
pub mod permissions;
pub mod auth;
pub mod permission_cache;
pub mod session_cache;
pub mod search;
pub mod upload;
pub mod trim;
pub mod login;
pub mod party;
pub mod messages;
pub mod asset;
pub mod cdn;
pub mod invite;
pub mod profile;
pub mod oembed;
pub mod files;
pub mod account;
pub mod room;
pub mod embeds;
pub mod ready;
pub mod emotes;

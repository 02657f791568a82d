# lantern_backend

The request-handling rules of the Lantern chat server's backend, as a library verified
with Verus.

`src/` holds the rules the handlers apply, each with a contract that Verus proves:

- `auth`, `session_cache`, `permission_cache`, `permissions`: tokens, the session and
  permission caches (kept in `scc` maps), permission words.
- `login`, `account`: login and two-factor checks, password hashing with `rust-argon2`,
  account changes, friendships and what users see of each other.
- `search`, `messages`, `emotes`, `embeds`, `trim`: message listings and searches, the
  rules of creating, editing and deleting messages, assembling message rows, rewriting
  custom emotes and choosing links to embed.
- `upload`, `files`, `asset`, `cdn`: resumable uploads with CRC-32 checks, new files,
  the conversation with the image process that makes avatars and banners, and file
  responses.
- `party`, `invite`, `profile`, `room`, `ready`, `metrics`, `oembed`: parties and rooms,
  invites, profiles, reactions and typing, the ready event, metrics and oEmbed answers.

Each module also states the laws that hold across its functions as proof functions.

`app/` holds what stays outside the verified library: thread-safe handles around the
caches, the metrics recorder, and the loop that streams a file body.

`tests/` runs the library on concrete values.

use vstd::prelude::*;

use crate::error::ApiError;

verus! {

use vstd::string::StringSliceAdditionalSpecFns;

/// What a user may do in a room, as far as the message handlers ask.
#[derive(Debug, Clone, Copy, PartialEq, Eq, Structural)]
pub struct RoomAccess {
    pub read_history: bool,
    pub send_messages: bool,
    pub attach_files: bool,
    pub embed_links: bool,
    pub manage_messages: bool,
    pub edit_new_attachment: bool,
}

/// Which delete statement runs, and so which parameters it takes.
#[derive(Debug, Clone, Copy, PartialEq, Eq, Structural)]
pub enum DeleteMode {
    /// The user manages messages: any message of the room goes (message id only).
    WithoutPerms,
    /// Only the user's own message goes (message and user id).
    IfOwn,
    /// Nothing is cached: the statement checks the permissions itself (all three ids).
    WithPerms,
}

/// Chooses how to delete a message from the cached permissions of the user in the room,
/// if any: a user who cannot read the room's history is refused outright.
pub fn plan_delete(cached: Option<RoomAccess>) -> (res: Result<DeleteMode, ApiError>)
    ensures
        res == match cached {
            None => Ok(DeleteMode::WithPerms),
            Some(a) => if !a.read_history {
                Err(ApiError::Unauthorized)
            } else if a.manage_messages {
                Ok(DeleteMode::WithoutPerms)
            } else {
                Ok(DeleteMode::IfOwn)
            },
        },
{
    match cached {
        None => Ok(DeleteMode::WithPerms),
        Some(a) => {
            if !a.read_history {
                Err(ApiError::Unauthorized)
            } else if a.manage_messages {
                Ok(DeleteMode::WithoutPerms)
            } else {
                Ok(DeleteMode::IfOwn)
            }
        },
    }
}

/// The number of parameters the chosen delete statement takes.
pub fn delete_param_count(mode: DeleteMode) -> (n: usize)
    ensures
        n == match mode {
            DeleteMode::WithoutPerms => 1usize,
            DeleteMode::IfOwn => 2usize,
            DeleteMode::WithPerms => 3usize,
        },
{
    match mode {
        DeleteMode::WithoutPerms => 1,
        DeleteMode::IfOwn => 2,
        DeleteMode::WithPerms => 3,
    }
}

/// A delete succeeds when exactly one message was marked deleted; otherwise the message was
/// not the user's, was already deleted or does not exist, which is reported as
/// `Unauthorized`.
pub fn delete_outcome(affected: u64) -> (res: Result<(), ApiError>)
    ensures
        res == (if affected == 1 {
            Ok::<(), ApiError>(())
        } else {
            Err(ApiError::Unauthorized)
        }),
{
    if affected == 1 {
        Ok(())
    } else {
        Err(ApiError::Unauthorized)
    }
}

/// With permissions at hand, the user must be allowed to send messages.
pub fn check_send(access: Option<RoomAccess>) -> (res: Result<(), ApiError>)
    ensures
        res == (if access matches Some(a) && !a.send_messages {
            Err(ApiError::Unauthorized)
        } else {
            Ok::<(), ApiError>(())
        }),
{
    match access {
        Some(a) => {
            if !a.send_messages {
                return Err(ApiError::Unauthorized);
            }
            Ok(())
        },
        None => Ok(()),
    }
}

/// A message needs some text (after trimming) or some attachment.
pub fn check_not_empty(trimmed_len: usize, num_attachments: usize) -> (res: Result<(), ApiError>)
    ensures
        res == (if trimmed_len == 0 && num_attachments == 0 {
            Err(ApiError::BadRequest)
        } else {
            Ok::<(), ApiError>(())
        }),
{
    if trimmed_len == 0 && num_attachments == 0 {
        Err(ApiError::BadRequest)
    } else {
        Ok(())
    }
}

/// Attaching files takes the permission to attach them.
pub fn check_attach(access: RoomAccess, num_attachments: usize) -> (res: Result<(), ApiError>)
    ensures
        res == (if num_attachments > 0 && !access.attach_files {
            Err(ApiError::Unauthorized)
        } else {
            Ok::<(), ApiError>(())
        }),
{
    if num_attachments > 0 && !access.attach_files {
        Err(ApiError::Unauthorized)
    } else {
        Ok(())
    }
}

/// Links of a message are embedded when it has content and the user may embed links.
pub fn wants_embeds(access: RoomAccess, content_len: usize) -> (b: bool)
    ensures
        b == (content_len > 0 && access.embed_links),
{
    content_len > 0 && access.embed_links
}

/// An empty message text is stored as no text at all.
pub fn stored_content(content: String) -> (res: Option<String>)
    ensures
        res == (if content@.len() == 0 {
            None
        } else {
            Some(content)
        }),
{
    if content.as_str().is_empty() {
        None
    } else {
        Some(content)
    }
}

/// Only the author may edit a message.
pub fn check_author(author_id: u64, user_id: u64) -> (res: Result<(), ApiError>)
    ensures
        res == (if author_id == user_id {
            Ok::<(), ApiError>(())
        } else {
            Err(ApiError::Unauthorized)
        }),
{
    if author_id != user_id {
        return Err(ApiError::Unauthorized);
    }
    Ok(())
}

/// No element occurs twice in `s`.
pub open spec fn distinct(s: Seq<u64>) -> bool {
    forall|i: int, j: int| 0 <= i < j < s.len() ==> s[i] != s[j]
}

/// The elements of `new` missing from `old`, each once, in the order they first occur in
/// `new`.
fn set_difference(new: &Vec<u64>, old: &Vec<u64>) -> (diff: Vec<u64>)
    ensures
        distinct(diff@),
        diff@.to_set() == new@.to_set().difference(old@.to_set()),
{
    let mut diff: Vec<u64> = Vec::new();
    for i in 0..new.len()
        invariant
            distinct(diff@),
            diff@.to_set() == new@.subrange(0, i as int).to_set().difference(old@.to_set()),
    {
        let x = new[i];
        let mut in_old = false;
        for j in 0..old.len()
            invariant
                in_old == old@.subrange(0, j as int).contains(x),
        {
            if old[j] == x {
                in_old = true;
            }
            proof {
                assert(old@.subrange(0, j + 1) == old@.subrange(0, j as int).push(old@[j as int]));
                vstd::seq_lib::lemma_seq_contains_after_push(old@.subrange(0, j as int), old@[j as int], x);
            }
        }
        let mut seen = false;
        for j in 0..diff.len()
            invariant
                seen == diff@.subrange(0, j as int).contains(x),
        {
            if diff[j] == x {
                seen = true;
            }
            proof {
                assert(diff@.subrange(0, j + 1) == diff@.subrange(0, j as int).push(diff@[j as int]));
                vstd::seq_lib::lemma_seq_contains_after_push(diff@.subrange(0, j as int), diff@[j as int], x);
            }
        }
        proof {
            assert(old@.subrange(0, old@.len() as int) == old@);
            assert(diff@.subrange(0, diff@.len() as int) == diff@);
            assert(new@.subrange(0, i + 1) == new@.subrange(0, i as int).push(x));
            assert(new@.subrange(0, i + 1).to_set() == new@.subrange(0, i as int).to_set().insert(x))
                by {
                assert(new@.subrange(0, i + 1) == new@.subrange(0, i as int) + seq![x]);
                Seq::<u64>::lemma_to_set_insert_commutes(new@.subrange(0, i as int), x);
            }
        }
        if !in_old && !seen {
            let ghost before = diff@;
            diff.push(x);
            proof {
                assert(diff@ == before + seq![x]);
                Seq::<u64>::lemma_to_set_insert_commutes(before, x);
                assert(distinct(diff@)) by {
                    assert forall|a: int, b: int| 0 <= a < b < diff@.len() implies diff@[a] != diff@[b] by {
                        if b == before.len() {
                            assert(before.contains(before[a]));
                        }
                    }
                }
            }
        }
        proof {
            assert(diff@.to_set() == new@.subrange(0, i + 1).to_set().difference(old@.to_set()));
        }
    }
    proof {
        assert(new@.subrange(0, new@.len() as int) == new@);
    }
    diff
}

/// The attachments an edit adds and removes, compared as sets: those of the new list
/// missing from the previous one, and the other way round. Nothing changes when both lists
/// hold the same files.
pub fn attachment_changes(prev: Option<Vec<u64>>, new: &Vec<u64>) -> (res: (Vec<u64>, Vec<u64>))
    ensures
        ({
            let pre: Set<u64> = match prev {
                Some(p) => p@.to_set(),
                None => Set::empty(),
            };
            &&& distinct(res.0@)
            &&& distinct(res.1@)
            &&& res.0@.to_set() == new@.to_set().difference(pre)
            &&& res.1@.to_set() == pre.difference(new@.to_set())
        }),
{
    let pre = match prev {
        Some(p) => p,
        None => Vec::new(),
    };
    proof {
        assert(Seq::<u64>::empty().to_set() =~= Set::<u64>::empty());
    }
    let added = set_difference(new, &pre);
    let removed = set_difference(&pre, new);
    (added, removed)
}

/// Adding attachments in an edit takes its own permission.
pub fn check_new_attachments(access: RoomAccess, num_added: usize) -> (res: Result<(), ApiError>)
    ensures
        res == (if num_added > 0 && !access.edit_new_attachment {
            Err(ApiError::Unauthorized)
        } else {
            Ok::<(), ApiError>(())
        }),
{
    if num_added > 0 && !access.edit_new_attachment {
        Err(ApiError::Unauthorized)
    } else {
        Ok(())
    }
}

/// The stored text of an edited message changes unless it stays the same, or stays empty
/// (no stored text and an empty new one).
pub fn content_changed(prev: Option<&str>, modified: &str) -> (b: bool)
    ensures
        b == match prev {
            Some(p) => p@ != modified@,
            None => modified@.len() != 0,
        },
{
    match prev {
        Some(p) => !same_text(p, modified),
        None => !modified.is_empty(),
    }
}

/// Compares two strings byte by byte.
pub fn same_text(a: &str, b: &str) -> (eq: bool)
    ensures
        eq == (a@ == b@),
{
    let ab = a.as_bytes();
    let bb = b.as_bytes();
    proof {
        vstd::utf8::encode_utf8_decode_utf8(a@);
        vstd::utf8::encode_utf8_decode_utf8(b@);
    }
    if ab.len() != bb.len() {
        return false;
    }
    let mut i: usize = 0;
    while i < ab.len()
        invariant
            ab@ == a.spec_bytes(),
            bb@ == b.spec_bytes(),
            ab@.len() == bb@.len(),
            i <= ab@.len(),
            forall|k: int| 0 <= k < i ==> ab@[k] == bb@[k],
        decreases ab@.len() - i,
    {
        if ab[i] != bb[i] {
            return false;
        }
        i = i + 1;
    }
    assert(ab@ =~= bb@);
    true
}

/// The mentions of a message, by what they mention.
#[derive(Debug, PartialEq, Eq)]
pub struct Mentions {
    pub users: Vec<u64>,
    pub roles: Vec<u64>,
    pub rooms: Vec<u64>,
}

/// The ids among the first `n` mentions whose kind is `k`, in order.
pub open spec fn mentions_upto(kinds: Seq<i32>, ids: Seq<u64>, k: i32, n: nat) -> Seq<u64>
    decreases n,
{
    if n == 0 {
        Seq::empty()
    } else {
        let rest = mentions_upto(kinds, ids, k, (n - 1) as nat);
        if kinds[n - 1] == k {
            rest.push(ids[n - 1])
        } else {
            rest
        }
    }
}

/// The ids of the mentions of kind `k` (1: users, 2: roles, 3: rooms), in order.
pub open spec fn mentions_of_kind(kinds: Seq<i32>, ids: Seq<u64>, k: i32) -> Seq<u64> {
    mentions_upto(kinds, ids, k, kinds.len())
}

/// Every mention of a known kind lands in exactly one of the three lists.
pub proof fn lemma_mentions_partition(kinds: Seq<i32>, ids: Seq<u64>, n: nat)
    requires
        n <= kinds.len(),
        forall|i: int| 0 <= i < kinds.len() ==> 1 <= #[trigger] kinds[i] <= 3,
    ensures
        mentions_upto(kinds, ids, 1, n).len() + mentions_upto(kinds, ids, 2, n).len()
            + mentions_upto(kinds, ids, 3, n).len() == n,
    decreases n,
{
    if n > 0 {
        lemma_mentions_partition(kinds, ids, (n - 1) as nat);
        assert(1 <= kinds[n - 1] <= 3);
    }
}

impl Mentions {
    pub fn new() -> (m: Mentions)
        ensures
            m.users@.len() == 0,
            m.roles@.len() == 0,
            m.rooms@.len() == 0,
    {
        Mentions { users: Vec::new(), roles: Vec::new(), rooms: Vec::new() }
    }

    /// Adds the aggregated mentions of a message row, given as parallel lists of kinds and
    /// ids, as a search reads them (once); lists of different lengths are an internal error
    /// and add nothing.
    pub fn append(&mut self, kinds: &Vec<i32>, ids: &Vec<u64>) -> (res: Result<(), ApiError>)
        requires
            kinds@.len() == ids@.len() ==> forall|i: int| 0 <= i < kinds@.len() ==> 1 <= #[trigger] kinds@[i] <= 3,
        ensures
            kinds@.len() != ids@.len() ==> res == Err::<(), ApiError>(ApiError::InternalError) && *final(self) == *old(self),
            kinds@.len() == ids@.len() ==> {
                &&& res is Ok
                &&& final(self).users@ == old(self).users@ + mentions_of_kind(kinds@, ids@, 1)
                &&& final(self).roles@ == old(self).roles@ + mentions_of_kind(kinds@, ids@, 2)
                &&& final(self).rooms@ == old(self).rooms@ + mentions_of_kind(kinds@, ids@, 3)
            },
    {
        if kinds.len() != ids.len() {
            return Err(ApiError::InternalError);
        }
        let ghost users0 = self.users@;
        let ghost roles0 = self.roles@;
        let ghost rooms0 = self.rooms@;
        let mut i: usize = 0;
        while i < kinds.len()
            invariant
                kinds@.len() == ids@.len(),
                forall|j: int| 0 <= j < kinds@.len() ==> 1 <= #[trigger] kinds@[j] <= 3,
                i <= kinds@.len(),
                self.users@ == users0 + mentions_upto(kinds@, ids@, 1, i as nat),
                self.roles@ == roles0 + mentions_upto(kinds@, ids@, 2, i as nat),
                self.rooms@ == rooms0 + mentions_upto(kinds@, ids@, 3, i as nat),
            decreases kinds@.len() - i,
        {
            let kind = kinds[i];
            let id = ids[i];
            if kind == 1 {
                self.users.push(id);
            } else if kind == 2 {
                self.roles.push(id);
            } else {
                self.rooms.push(id);
            }
            i = i + 1;
            proof {
                assert(self.users@ == users0 + mentions_upto(kinds@, ids@, 1, i as nat));
                assert(self.roles@ == roles0 + mentions_upto(kinds@, ids@, 2, i as nat));
                assert(self.rooms@ == rooms0 + mentions_upto(kinds@, ids@, 3, i as nat));
            }
        }
        Ok(())
    }
}

impl Mentions {
    /// The mentions of a row of a plain message listing. The listing reads the mention
    /// aggregates of a row twice, so every mention appears twice: the row's mentions of each
    /// kind, then the same again. Lists of different lengths are an internal error.
    pub fn of_listing_row(kinds: &Vec<i32>, ids: &Vec<u64>) -> (res: Result<Mentions, ApiError>)
        requires
            kinds@.len() == ids@.len() ==> forall|i: int| 0 <= i < kinds@.len() ==> 1 <= #[trigger] kinds@[i] <= 3,
        ensures
            kinds@.len() != ids@.len() ==> res == Err::<Mentions, ApiError>(ApiError::InternalError),
            kinds@.len() == ids@.len() ==> (res matches Ok(m) && {
                &&& m.users@ == mentions_of_kind(kinds@, ids@, 1) + mentions_of_kind(kinds@, ids@, 1)
                &&& m.roles@ == mentions_of_kind(kinds@, ids@, 2) + mentions_of_kind(kinds@, ids@, 2)
                &&& m.rooms@ == mentions_of_kind(kinds@, ids@, 3) + mentions_of_kind(kinds@, ids@, 3)
            }),
    {
        let mut m = Mentions::new();
        match m.append(kinds, ids) {
            Err(e) => return Err(e),
            Ok(()) => {},
        }
        match m.append(kinds, ids) {
            Err(e) => return Err(e),
            Ok(()) => {},
        }
        proof {
            assert(Seq::<u64>::empty() + mentions_of_kind(kinds@, ids@, 1) =~= mentions_of_kind(kinds@, ids@, 1));
            assert(Seq::<u64>::empty() + mentions_of_kind(kinds@, ids@, 2) =~= mentions_of_kind(kinds@, ids@, 2));
            assert(Seq::<u64>::empty() + mentions_of_kind(kinds@, ids@, 3) =~= mentions_of_kind(kinds@, ids@, 3));
        }
        Ok(m)
    }
}

/// The stored facts of a file attached to a message.
#[derive(Debug, PartialEq, Eq)]
pub struct AttachmentMeta {
    pub id: u64,
    pub size: i32,
    pub flags: Option<i16>,
    pub name: String,
    pub mime: Option<String>,
    pub width: Option<i32>,
    pub height: Option<i32>,
}

/// A file attached to a message, as clients see it.
#[derive(Debug, PartialEq, Eq)]
pub struct AttachedFile {
    pub id: u64,
    pub filename: String,
    pub size: i64,
    pub mime: Option<String>,
    pub width: Option<i32>,
    pub height: Option<i32>,
    /// The preview image, in Z85 text.
    pub preview: Option<String>,
}

/// The Z85 text of `bytes`, as the `z85` crate encodes it.
pub uninterp spec fn z85_text(bytes: Seq<u8>) -> Seq<char>;

/// Encodes bytes as Z85 text.
///
/// Trusted: calls `z85::encode`, which never fails and encodes every four bytes (and a
/// shorter tail) as five characters; the contract names the text and states its length.
#[verifier::external_body]
fn z85_encode(bytes: &[u8]) -> (text: String)
    ensures
        text@ == z85_text(bytes@),
        text@.len() == (bytes@.len() + 3) / 4 * 5,
{
    z85::encode(bytes)
}

/// An attachment whose file was orphaned (removed from the message by an edit).
pub open spec fn is_orphaned(flags: Option<i16>, orphaned: i16) -> bool {
    flags matches Some(f) && (f & orphaned) == orphaned
}

/// `file` is what clients see of the attachment `meta` with the given preview.
pub open spec fn file_shows(file: AttachedFile, meta: AttachmentMeta, preview: Option<Vec<u8>>) -> bool {
    &&& file.id == meta.id
    &&& file.filename == meta.name
    &&& file.size == meta.size as i64
    &&& file.mime == meta.mime
    &&& file.width == meta.width
    &&& file.height == meta.height
    &&& match preview {
        Some(p) => file.preview matches Some(t) && t@ == z85_text(p@),
        None => file.preview is None,
    }
}

/// The attachments shown are, in order, exactly those whose flags do not hold every bit of
/// `orphaned`: each shown one is such an attachment, every such attachment is shown, and
/// none twice.
pub proof fn lemma_shown_not_orphaned(metas: Seq<AttachmentMeta>, orphaned: i16, n: nat)
    requires
        n <= metas.len(),
    ensures
        forall|k: int|
            0 <= k < shown_upto(metas, orphaned, n).len() ==> {
                let i = #[trigger] shown_upto(metas, orphaned, n)[k];
                &&& 0 <= i < n
                &&& !(metas[i].flags matches Some(f) && (f & orphaned) == orphaned)
            },
        forall|i: int|
            0 <= i < n && !(#[trigger] metas[i].flags matches Some(f) && (f & orphaned) == orphaned)
                ==> shown_upto(metas, orphaned, n).contains(i),
        forall|a: int, b: int|
            0 <= a < b < shown_upto(metas, orphaned, n).len() ==> shown_upto(metas, orphaned, n)[a]
                < shown_upto(metas, orphaned, n)[b],
    decreases n,
{
    if n > 0 {
        let m = (n - 1) as nat;
        lemma_shown_not_orphaned(metas, orphaned, m);
        let rest = shown_upto(metas, orphaned, m);
        let cur = shown_upto(metas, orphaned, n);
        assert forall|i: int|
            0 <= i < n && !(#[trigger] metas[i].flags matches Some(f) && (f & orphaned) == orphaned)
                implies cur.contains(i) by {
            if i < m {
                assert(rest.contains(i));
                let k = choose|k: int| 0 <= k < rest.len() && rest[k] == i;
                assert(cur[k] == rest[k]);
            } else {
                assert(cur[cur.len() - 1] == i);
            }
        }
    }
}

/// A file shows its attachment field by field: the same id, name, size, MIME type, width
/// and height (the height is the stored height, whatever the width).
pub proof fn lemma_files_show_fields(
    files: Seq<AttachedFile>,
    metas: Seq<AttachmentMeta>,
    previews: Seq<Option<Vec<u8>>>,
    shown: Seq<int>,
)
    requires
        files_show(files, metas, previews, shown),
    ensures
        files.len() == shown.len(),
        forall|k: int|
            0 <= k < files.len() ==> {
                let (file, meta) = (#[trigger] files[k], metas[shown[k]]);
                &&& meta.id == file.id
                &&& meta.name == file.filename
                &&& meta.size == file.size
                &&& meta.mime == file.mime
                &&& meta.width == file.width
                &&& meta.height == file.height
            },
{
    assert forall|k: int| 0 <= k < files.len() implies ({
        let (file, meta) = (#[trigger] files[k], metas[shown[k]]);
        &&& meta.id == file.id
        &&& meta.name == file.filename
        &&& meta.size == file.size
        &&& meta.mime == file.mime
        &&& meta.width == file.width
        &&& meta.height == file.height
    }) by {
        assert(file_shows(files[k], metas[shown[k]], previews[shown[k]]));
    }
}

/// The positions, among the first `n` attachments, of those shown (not orphaned).
pub open spec fn shown_upto(metas: Seq<AttachmentMeta>, orphaned: i16, n: nat) -> Seq<int>
    decreases n,
{
    if n == 0 {
        Seq::empty()
    } else {
        let rest = shown_upto(metas, orphaned, (n - 1) as nat);
        if is_orphaned(metas[n - 1].flags, orphaned) {
            rest
        } else {
            rest.push(n - 1)
        }
    }
}

/// `files` shows, in order, the attachments at the given positions.
pub open spec fn files_show(
    files: Seq<AttachedFile>,
    metas: Seq<AttachmentMeta>,
    previews: Seq<Option<Vec<u8>>>,
    shown: Seq<int>,
) -> bool {
    &&& files.len() == shown.len()
    &&& forall|k: int| 0 <= k < files.len() ==> #[trigger] file_shows(files[k], metas[shown[k]], previews[shown[k]])
}

fn clone_opt_string(s: &Option<String>) -> (c: Option<String>)
    ensures
        c == *s,
{
    match s {
        Some(t) => Some(t.clone()),
        None => None,
    }
}

/// The attachments of a message row as clients see them: files orphaned by an edit (whose
/// flags hold every bit of `orphaned`) are left out, and each preview is given as Z85 text.
/// The row holds one preview per attachment; other counts are an internal error.
pub fn collect_attachments(
    metas: &Vec<AttachmentMeta>,
    previews: &Vec<Option<Vec<u8>>>,
    orphaned: i16,
) -> (res: Result<Vec<AttachedFile>, ApiError>)
    ensures
        metas@.len() != previews@.len() ==> res == Err::<Vec<AttachedFile>, ApiError>(ApiError::InternalError),
        metas@.len() == previews@.len() ==> (res matches Ok(files) && files_show(
            files@,
            metas@,
            previews@,
            shown_upto(metas@, orphaned, metas@.len()),
        )),
        metas@.len() == previews@.len() ==> (res matches Ok(files) && {
            let shown = shown_upto(metas@, orphaned, metas@.len());
            &&& forall|k: int|
                0 <= k < shown.len() ==> {
                    let i = #[trigger] shown[k];
                    &&& 0 <= i < metas@.len()
                    &&& !(metas@[i].flags matches Some(f) && (f & orphaned) == orphaned)
                }
            &&& forall|i: int|
                0 <= i < metas@.len() && !(#[trigger] metas@[i].flags matches Some(f) && (f & orphaned) == orphaned)
                    ==> shown.contains(i)
            &&& forall|a: int, b: int| 0 <= a < b < shown.len() ==> shown[a] < shown[b]
            &&& files@.len() == shown.len()
            &&& forall|k: int|
                0 <= k < files@.len() ==> {
                    let (file, meta) = (#[trigger] files@[k], metas@[shown[k]]);
                    &&& meta.id == file.id
                    &&& meta.name == file.filename
                    &&& meta.size == file.size
                    &&& meta.mime == file.mime
                    &&& meta.width == file.width
                    &&& meta.height == file.height
                }
        }),
{
    if metas.len() != previews.len() {
        return Err(ApiError::InternalError);
    }
    let mut files: Vec<AttachedFile> = Vec::new();
    let mut i: usize = 0;
    while i < metas.len()
        invariant
            metas@.len() == previews@.len(),
            i <= metas@.len(),
            files_show(files@, metas@, previews@, shown_upto(metas@, orphaned, i as nat)),
        decreases metas@.len() - i,
    {
        let meta = &metas[i];
        let ghost shown = shown_upto(metas@, orphaned, i as nat);
        let skip = match meta.flags {
            Some(f) => (f & orphaned) == orphaned,
            None => false,
        };
        if !skip {
            let preview = match &previews[i] {
                Some(p) => Some(z85_encode(p.as_slice())),
                None => None,
            };
            let file = AttachedFile {
                id: meta.id,
                filename: meta.name.clone(),
                size: meta.size as i64,
                mime: clone_opt_string(&meta.mime),
                width: meta.width,
                height: meta.height,
                preview,
            };
            let ghost before = files@;
            files.push(file);
            proof {
                let next = shown.push(i as int);
                assert(shown_upto(metas@, orphaned, (i + 1) as nat) == next);
                assert forall|k: int| 0 <= k < files@.len() implies #[trigger] file_shows(files@[k], metas@[next[k]], previews@[next[k]]) by {
                    if k < before.len() {
                        assert(files@[k] == before[k]);
                        assert(next[k] == shown[k]);
                    }
                }
            }
        }
        i = i + 1;
    }
    proof {
        lemma_files_show_fields(files@, metas@, previews@, shown_upto(metas@, orphaned, metas@.len()));
        lemma_shown_not_orphaned(metas@, orphaned, metas@.len());
    }
    Ok(files)
}

/// A reaction row aggregated for a message: a custom emote or a standard emoji, whether the
/// user reacted, and how many did.
#[derive(Debug, Clone, Copy, PartialEq, Eq, Structural)]
pub struct RawReaction {
    pub emote: Option<u64>,
    pub emoji: Option<i32>,
    pub me: bool,
    pub count: i64,
}

/// What a reaction is made with.
#[derive(Debug, PartialEq, Eq)]
pub enum ReactionKey {
    Emote(u64),
    Emoji(String),
}

/// A reaction as clients see it.
#[derive(Debug, PartialEq, Eq)]
pub struct ReactionShorthand {
    pub me: bool,
    pub count: i64,
    pub emote: ReactionKey,
}

/// Whether a reaction row is shown, given the emoji found for its emoji id: rows nobody
/// reacted with, emoji ids that name no emoji, and rows with both or neither of an emote
/// and an emoji are skipped.
pub open spec fn reaction_shown(r: RawReaction, emoji: Option<String>) -> bool {
    &&& r.count != 0
    &&& match (r.emote, r.emoji) {
        (Some(_), None) => true,
        (None, Some(_)) => emoji is Some,
        _ => false,
    }
}

/// The reaction shown for a row, when `reaction_shown` holds.
pub open spec fn shorthand_of(r: RawReaction, emoji: Option<String>) -> ReactionShorthand {
    ReactionShorthand {
        me: r.me,
        count: r.count,
        emote: match r.emote {
            Some(e) => ReactionKey::Emote(e),
            None => ReactionKey::Emoji(emoji->0),
        },
    }
}

/// The reactions shown for the first `n` rows, in order.
pub open spec fn reactions_upto(raw: Seq<RawReaction>, emoji: Seq<Option<String>>, n: nat) -> Seq<ReactionShorthand>
    decreases n,
{
    if n == 0 {
        Seq::empty()
    } else {
        let rest = reactions_upto(raw, emoji, (n - 1) as nat);
        if reaction_shown(raw[n - 1], emoji[n - 1]) {
            rest.push(shorthand_of(raw[n - 1], emoji[n - 1]))
        } else {
            rest
        }
    }
}

/// The reactions of a message row as clients see them. `emoji[i]` is the emoji that the
/// emoji id of `raw[i]` names, if any (it is not read for a row without emoji id).
pub fn collect_reactions(raw: &Vec<RawReaction>, emoji: &Vec<Option<String>>) -> (res: Vec<ReactionShorthand>)
    requires
        raw@.len() == emoji@.len(),
    ensures
        res@ == reactions_upto(raw@, emoji@, raw@.len()),
{
    let mut res: Vec<ReactionShorthand> = Vec::new();
    let mut i: usize = 0;
    while i < raw.len()
        invariant
            raw@.len() == emoji@.len(),
            i <= raw@.len(),
            res@ == reactions_upto(raw@, emoji@, i as nat),
        decreases raw@.len() - i,
    {
        let r = raw[i];
        if r.count != 0 {
            let key = match (r.emote, r.emoji) {
                (Some(e), None) => Some(ReactionKey::Emote(e)),
                (None, Some(_)) => match &emoji[i] {
                    Some(name) => Some(ReactionKey::Emoji(name.clone())),
                    None => None,
                },
                _ => None,
            };
            match key {
                Some(k) => {
                    res.push(ReactionShorthand { me: r.me, count: r.count, emote: k });
                },
                None => {},
            }
        }
        i = i + 1;
    }
    res
}

} // verus!

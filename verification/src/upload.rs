use vstd::prelude::*;

use crate::error::ApiError;

verus! {

#[verifier::external_type_specification]
#[verifier::external_body]
pub struct ExCrc32Hasher(crc32fast::Hasher);

/// The bytes fed so far into a `crc32fast::Hasher`, in order.
pub uninterp spec fn crc32_hasher_data(h: crc32fast::Hasher) -> Seq<u8>;

/// The CRC-32 (IEEE) checksum of `data`, as `crc32fast` computes it.
pub uninterp spec fn crc32_checksum(data: Seq<u8>) -> u32;

/// `crc32fast::Hasher::new`: a hasher that has been fed nothing.
#[verifier::external_body]
fn crc32_new() -> (h: crc32fast::Hasher)
    ensures
        crc32_hasher_data(h) == Seq::<u8>::empty(),
{
    crc32fast::Hasher::new()
}

/// `crc32fast::Hasher::update`: feeds `buf` after the bytes fed so far. The hasher counts
/// the fed bytes in a `u64`, which must not overflow.
#[verifier::external_body]
fn crc32_update(h: &mut crc32fast::Hasher, buf: &[u8])
    requires
        crc32_hasher_data(*old(h)).len() + buf@.len() <= u64::MAX,
    ensures
        crc32_hasher_data(*final(h)) == crc32_hasher_data(*old(h)) + buf@,
{
    h.update(buf)
}

/// `crc32fast::Hasher::finalize`: the checksum of all bytes fed.
#[verifier::external_body]
fn crc32_finalize(h: crc32fast::Hasher) -> (sum: u32)
    ensures
        sum == crc32_checksum(crc32_hasher_data(h)),
{
    h.finalize()
}

/// Number of leading bytes of a new file kept for deducing its MIME type.
pub const MIME_PREFIX_LEN: usize = 260;

/// Result of a successful upload request.
#[derive(Debug, Clone, Copy, PartialEq, Eq, Structural)]
pub struct FilePatch {
    pub complete: bool,
    pub upload_offset: u64,
}

/// Parameters of an upload request (a PATCH of the file's next bytes).
#[derive(Debug, Clone, Copy, PartialEq, Eq, Structural)]
pub struct FilePatchParams {
    pub crc32: u32,
    pub upload_offset: u32,
    pub content_length: u64,
}

/// What the upload handler acts on when an upload request succeeded.
pub struct UploadCompletion {
    pub patch: FilePatch,
    /// The first bytes of the file, to deduce its MIME type from, when that is wanted.
    pub mime_prefix: Option<Vec<u8>>,
    /// The file has been uploaded in full and must be marked complete.
    pub mark_complete: bool,
}

/// What the upload handler acts on when an upload request failed.
#[derive(Debug, Clone, Copy, PartialEq, Eq, Structural)]
pub struct UploadFailure {
    pub error: ApiError,
    /// The length the file must be truncated back to, when anything was written.
    pub rewind_to: Option<u64>,
}

/// One upload request in progress: the checks made before any byte is accepted, the
/// accounting of the bytes received, their checksum and the prefix kept for MIME deduction.
pub struct UploadSession {
    size: u64,
    append_pos: u64,
    content_length: u64,
    expected_crc: u32,
    written: u64,
    stored: u64,
    crc: crc32fast::Hasher,
    read_prefix: bool,
    prefix: Vec<u8>,
    error: Option<ApiError>,
    received: Ghost<Seq<u8>>,
}

pub open spec fn min_int(a: int, b: int) -> int {
    if a < b {
        a
    } else {
        b
    }
}

impl UploadSession {
    /// The bytes accepted so far.
    pub closed spec fn received(&self) -> Seq<u8> {
        self.received@
    }

    /// The number of accepted bytes known to be written to the file: a chunk counts once
    /// `wrote` reports its write done.
    pub closed spec fn stored(&self) -> u64 {
        self.stored
    }

    /// The error that ended the upload, if any.
    pub closed spec fn failure(&self) -> Option<ApiError> {
        self.error
    }

    pub closed spec fn file_size(&self) -> u64 {
        self.size
    }

    pub closed spec fn start(&self) -> u64 {
        self.append_pos
    }

    pub closed spec fn declared_length(&self) -> u64 {
        self.content_length
    }

    pub closed spec fn expected_checksum(&self) -> u32 {
        self.expected_crc
    }

    /// The request starts a file whose MIME type is not known yet.
    pub closed spec fn wants_prefix(&self) -> bool {
        self.read_prefix
    }

    /// The session's internal consistency, which `begin` establishes and every method keeps.
    pub closed spec fn wf(&self) -> bool {
        &&& self.append_pos + self.content_length <= u64::MAX
        &&& self.written == self.received@.len()
        &&& self.written <= self.content_length
        &&& self.stored <= self.written
        &&& crc32_hasher_data(self.crc) == self.received@
        &&& self.read_prefix ==> self.prefix@.len() == MIME_PREFIX_LEN
        &&& self.read_prefix ==> forall|i: int|
            0 <= i < min_int(MIME_PREFIX_LEN as int, self.written as int) ==> #[trigger] self.prefix@[i]
                == self.received@[i]
    }

    /// Checks an upload request against the file it writes to: `size` is the file's declared
    /// size, `complete` whether it was already fully uploaded, `no_mime` whether its MIME type
    /// is still unknown, and `append_pos` the current length of its stored bytes.
    pub fn begin(
        size: u64,
        complete: bool,
        no_mime: bool,
        append_pos: u64,
        params: &FilePatchParams,
    ) -> (res: Result<UploadSession, ApiError>)
        requires
            append_pos + params.content_length <= u64::MAX,
        ensures
            complete ==> res == Err::<UploadSession, ApiError>(ApiError::Conflict),
            !complete && params.upload_offset as u64 != append_pos ==> res == Err::<
                UploadSession,
                ApiError,
            >(ApiError::Conflict),
            !complete && params.upload_offset as u64 == append_pos && append_pos
                + params.content_length > size ==> res == Err::<UploadSession, ApiError>(
                ApiError::RequestEntityTooLarge,
            ),
            !complete && params.upload_offset as u64 == append_pos && append_pos
                + params.content_length <= size ==> (res matches Ok(s) && s.received()
                == Seq::<u8>::empty() && s.failure() is None && s.file_size() == size && s.start()
                == append_pos && s.declared_length() == params.content_length && s.stored() == 0
                && s.expected_checksum() == params.crc32 && s.wants_prefix() == (no_mime
                && append_pos == 0) && s.wf()),
    {
        // a completed file cannot be modified
        if complete {
            return Err(ApiError::Conflict);
        }
        if params.upload_offset as u64 != append_pos {
            return Err(ApiError::Conflict);
        }
        let end_pos = append_pos + params.content_length;
        // Don't allow excess writing
        if end_pos > size {
            return Err(ApiError::RequestEntityTooLarge);
        }
        let read_prefix = no_mime && append_pos == 0;
        let mut prefix: Vec<u8> = Vec::new();
        if read_prefix {
            let mut i: usize = 0;
            while i < MIME_PREFIX_LEN
                invariant
                    i <= MIME_PREFIX_LEN,
                    prefix@.len() == i,
                decreases MIME_PREFIX_LEN - i,
            {
                prefix.push(0);
                i = i + 1;
            }
        }
        Ok(UploadSession {
            size,
            append_pos,
            content_length: params.content_length,
            expected_crc: params.crc32,
            written: 0,
            stored: 0,
            crc: crc32_new(),
            read_prefix,
            prefix,
            error: None,
            received: Ghost(Seq::empty()),
        })
    }

    /// Accepts the next chunk of the request body. A chunk that would take the body past
    /// its declared length ends the upload with `RequestEntityTooLarge` and is not accepted;
    /// after the upload has ended, chunks are refused with the error that ended it.
    pub fn accept_chunk(&mut self, bytes: &[u8]) -> (res: Result<(), ApiError>)
        requires
            old(self).wf(),
        ensures
            final(self).wf(),
            old(self).failure() matches Some(e) ==> res == Err::<(), ApiError>(e) && final(self).received() == old(self).received()
                && final(self).failure() == old(self).failure(),
            old(self).failure() is None && old(self).received().len() + bytes@.len()
                > old(self).declared_length() ==> res == Err::<(), ApiError>(
                ApiError::RequestEntityTooLarge,
            ) && final(self).received() == old(self).received() && final(self).failure() == Some(
                ApiError::RequestEntityTooLarge,
            ),
            old(self).failure() is None && old(self).received().len() + bytes@.len()
                <= old(self).declared_length() ==> res is Ok && final(self).received() == old(
                self,
            ).received() + bytes@ && final(self).failure() is None,
            final(self).file_size() == old(self).file_size(),
            final(self).start() == old(self).start(),
            final(self).declared_length() == old(self).declared_length(),
            final(self).expected_checksum() == old(self).expected_checksum(),
            final(self).wants_prefix() == old(self).wants_prefix(),
            final(self).stored() == old(self).stored(),
    {
        if let Some(e) = self.error {
            return Err(e);
        }
        let num_bytes = bytes.len() as u64;
        // check if request is too large before writing
        if num_bytes > self.content_length - self.written {
            self.error = Some(ApiError::RequestEntityTooLarge);
            return Err(ApiError::RequestEntityTooLarge);
        }
        let new_written = self.written + num_bytes;
        let ghost new_received = self.received@ + bytes@;
        // copy parts of the chunk into the prefix buffer while it is not yet filled
        let mut prefix = Vec::new();
        std::mem::swap(&mut prefix, &mut self.prefix);
        if self.read_prefix && self.written < MIME_PREFIX_LEN as u64 {
            let start = self.written as usize;
            let mut k: usize = 0;
            while k < bytes.len() && k < MIME_PREFIX_LEN - start
                invariant
                    start == self.written,
                    self.written == self.received@.len(),
                    start < MIME_PREFIX_LEN,
                    prefix@.len() == MIME_PREFIX_LEN,
                    forall|i: int| 0 <= i < start ==> #[trigger] prefix@[i] == self.received@[i],
                    forall|i: int| start <= i < start + k ==> #[trigger] prefix@[i] == bytes@[i - start],
                decreases bytes.len() - k,
            {
                prefix.set(start + k, bytes[k]);
                k = k + 1;
            }
        }
        let mut crc = crc32_new();
        std::mem::swap(&mut crc, &mut self.crc);
        crc32_update(&mut crc, bytes);
        self.crc = crc;
        self.prefix = prefix;
        self.written = new_written;
        self.received = Ghost(new_received);
        Ok(())
    }

    /// Ends the upload with `error` (a failure of the body stream, of a write or of the final
    /// flush), unless it has already ended with another error, which is kept.
    pub fn fail(&mut self, error: ApiError)
        requires
            old(self).wf(),
        ensures
            final(self).wf(),
            final(self).failure() == (if old(self).failure() is None {
                Some(error)
            } else {
                old(self).failure()
            }),
            final(self).received() == old(self).received(),
            final(self).file_size() == old(self).file_size(),
            final(self).start() == old(self).start(),
            final(self).declared_length() == old(self).declared_length(),
            final(self).expected_checksum() == old(self).expected_checksum(),
            final(self).wants_prefix() == old(self).wants_prefix(),
            final(self).stored() == old(self).stored(),
    {
        if self.error.is_none() {
            self.error = Some(error);
        }
    }

    /// Reports that the chunks accepted so far are written to the file. A chunk whose write
    /// failed is not reported (the upload is ended with `fail` instead), so it is not
    /// counted among the bytes to rewind.
    pub fn wrote(&mut self)
        requires
            old(self).wf(),
        ensures
            final(self).wf(),
            final(self).stored() == old(self).received().len(),
            final(self).received() == old(self).received(),
            final(self).failure() == old(self).failure(),
            final(self).file_size() == old(self).file_size(),
            final(self).start() == old(self).start(),
            final(self).declared_length() == old(self).declared_length(),
            final(self).expected_checksum() == old(self).expected_checksum(),
            final(self).wants_prefix() == old(self).wants_prefix(),
    {
        self.stored = self.written;
    }

    /// Concludes the upload request. It fails with the error that ended it, otherwise with
    /// `ChecksumMismatch` when the received bytes do not have the declared checksum; a
    /// failure rewinds the file to where the request started if any byte was reported
    /// written.
    /// On success the offset reported is where the request declared its body to end (the
    /// start plus the declared length, even when a shorter body came with a matching
    /// checksum), the file is marked complete when that offset is its declared size, and the
    /// prefix of a new file is handed out for MIME deduction.
    pub fn finish(self) -> (res: Result<UploadCompletion, UploadFailure>)
        requires
            self.wf(),
        ensures
            ({
                let err = match self.failure() {
                    Some(e) => Some(e),
                    None => if self.expected_checksum() != crc32_checksum(self.received()) {
                        Some(ApiError::ChecksumMismatch)
                    } else {
                        None
                    },
                };
                let end_pos = self.start() + self.declared_length();
                match err {
                    Some(e) => res == Err::<UploadCompletion, UploadFailure>(
                        UploadFailure {
                            error: e,
                            rewind_to: if self.stored() > 0 {
                                Some(self.start())
                            } else {
                                None
                            },
                        },
                    ),
                    None => res matches Ok(c) && c.patch == (FilePatch {
                        complete: end_pos == self.file_size(),
                        upload_offset: end_pos as u64,
                    }) && c.mark_complete == (end_pos == self.file_size()) && (if self.wants_prefix() {
                        c.mime_prefix matches Some(p) && p@ == self.received().take(
                            min_int(MIME_PREFIX_LEN as int, self.stored() as int),
                        )
                    } else {
                        c.mime_prefix is None
                    }),
                }
            }),
    {
        let final_crc = crc32_finalize(self.crc);
        let err = match self.error {
            Some(e) => Some(e),
            None => if self.expected_crc != final_crc {
                Some(ApiError::ChecksumMismatch)
            } else {
                None
            },
        };
        if let Some(error) = err {
            // only rewind if there was anything written
            let rewind_to = if self.stored > 0 {
                Some(self.append_pos)
            } else {
                None
            };
            return Err(UploadFailure { error, rewind_to });
        }
        let end_pos = self.append_pos + self.content_length;
        let mime_prefix = if self.read_prefix {
            // the prefix may not have been filled fully (small files)
            let prefix_end = if self.stored < MIME_PREFIX_LEN as u64 {
                self.stored as usize
            } else {
                MIME_PREFIX_LEN
            };
            let mut out: Vec<u8> = Vec::new();
            let mut i: usize = 0;
            while i < prefix_end
                invariant
                    prefix_end <= MIME_PREFIX_LEN,
                    prefix_end == min_int(MIME_PREFIX_LEN as int, self.stored as int),
                    self.stored <= self.written,
                    self.prefix@.len() == MIME_PREFIX_LEN,
                    forall|j: int| 0 <= j < prefix_end ==> #[trigger] self.prefix@[j] == self.received@[j],
                    self.received@.len() == self.written,
                    i <= prefix_end,
                    out@ == self.received@.take(i as int),
                decreases prefix_end - i,
            {
                out.push(self.prefix[i]);
                assert(out@ =~= self.received@.take(i + 1));
                i = i + 1;
            }
            Some(out)
        } else {
            None
        };
        let complete = end_pos == self.size;
        Ok(UploadCompletion {
            patch: FilePatch { complete, upload_offset: end_pos },
            mime_prefix,
            mark_complete: complete,
        })
    }
}

} // verus!

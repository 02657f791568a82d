use vstd::prelude::*;

use crate::error::ApiError;

verus! {

use vstd::string::StringSliceAdditionalSpecFns;
use vstd::utf8::encode_utf8;

/// Whether `text` is a well-formed MIME type, as the `mime` crate parses them.
pub uninterp spec fn mime_parses(text: Seq<char>) -> bool;

/// Parses a MIME type and tells whether it is well formed.
///
/// Trusted: calls `<mime::Mime as FromStr>::from_str`; the contract names its verdict,
/// which depends on the text alone.
#[verifier::external_body]
fn parse_mime(text: &str) -> (ok: bool)
    ensures
        ok == mime_parses(text@),
{
    <mime::Mime as std::str::FromStr>::from_str(text).is_ok()
}

/// The bytes that Z85 text decodes to, as the `z85` crate decodes it, or `None` where it
/// refuses the text.
pub uninterp spec fn z85_decoded(text: Seq<u8>) -> Option<Seq<u8>>;

/// Decodes Z85 text.
///
/// Trusted: calls `z85::decode`; the contract names the outcome and states what its source
/// shows plainly: empty text decodes to no bytes, and text whose length is not a multiple
/// of five is refused.
#[verifier::external_body]
fn z85_decode(text: &[u8]) -> (res: Option<Vec<u8>>)
    ensures
        res is None <==> z85_decoded(text@) is None,
        res is Some ==> z85_decoded(text@) == Some(res->0@),
        text@.len() == 0 ==> (res is Some && res->0@.len() == 0),
        text@.len() % 5 != 0 ==> res is None,
{
    z85::decode(text).ok()
}

/// A new file's MIME type, if it has one, must be well formed (`BadRequest`).
pub fn check_file_mime(mime: Option<&str>) -> (res: Result<(), ApiError>)
    ensures
        res == (if mime matches Some(m) && !mime_parses(m@) {
            Err(ApiError::BadRequest)
        } else {
            Ok::<(), ApiError>(())
        }),
{
    match mime {
        Some(m) => {
            if !parse_mime(m) {
                return Err(ApiError::BadRequest);
            }
            Ok(())
        },
        None => Ok(()),
    }
}

/// The bytes of a new file's preview, sent as Z85 text; text that does not decode is an
/// `InvalidPreview`.
pub fn decode_preview(preview: Option<&str>) -> (res: Result<Option<Vec<u8>>, ApiError>)
    ensures
        match preview {
            None => res matches Ok(None),
            Some(p) => match z85_decoded(p.spec_bytes()) {
                None => res == Err::<Option<Vec<u8>>, ApiError>(ApiError::InvalidPreview),
                Some(bytes) => res matches Ok(Some(v)) && v@ == bytes,
            },
        },
{
    match preview {
        None => Ok(None),
        Some(p) => match z85_decode(p.as_bytes()) {
            None => Err(ApiError::InvalidPreview),
            Some(bytes) => Ok(Some(bytes)),
        },
    }
}

/// The fields of a request that creates a file.
pub struct FilePostBody {
    pub filename: String,
    pub size: i32,
    pub mime: Option<String>,
    pub width: Option<i32>,
    pub height: Option<i32>,
    /// The preview image, as Z85 text.
    pub preview: Option<String>,
}

/// The MIME type given is not well formed.
pub open spec fn mime_refused(mime: Option<String>) -> bool {
    match mime {
        Some(m) => !mime_parses(m@),
        None => false,
    }
}

/// The preview given does not decode.
pub open spec fn preview_refused(preview: Option<String>) -> bool {
    match preview {
        Some(p) => z85_decoded(encode_utf8(p@)) is None,
        None => false,
    }
}

/// The checks of a new file before it is stored: its MIME type must be well formed
/// (`BadRequest`), then its preview must decode (`InvalidPreview`). The result is the
/// decoded preview.
pub fn check_post_body(body: &FilePostBody) -> (res: Result<Option<Vec<u8>>, ApiError>)
    ensures
        mime_refused(body.mime) ==> res == Err::<Option<Vec<u8>>, ApiError>(ApiError::BadRequest),
        !mime_refused(body.mime) && preview_refused(body.preview) ==> res == Err::<
            Option<Vec<u8>>,
            ApiError,
        >(ApiError::InvalidPreview),
        !mime_refused(body.mime) && !preview_refused(body.preview) ==> (res matches Ok(pv) && match body.preview {
            None => pv is None,
            Some(p) => pv matches Some(v) && z85_decoded(encode_utf8(p@)) == Some(v@),
        }),
{
    let mime = match &body.mime {
        Some(m) => Some(m.as_str()),
        None => None,
    };
    match check_file_mime(mime) {
        Err(e) => return Err(e),
        Ok(()) => {},
    }
    let preview = match &body.preview {
        Some(p) => Some(p.as_str()),
        None => None,
    };
    decode_preview(preview)
}

/// The decoded preview must be a valid blurhash image (`InvalidPreview`).
pub fn check_preview_valid(valid: bool) -> (res: Result<(), ApiError>)
    ensures
        res == (if valid {
            Ok::<(), ApiError>(())
        } else {
            Err(ApiError::InvalidPreview)
        }),
{
    if valid {
        Ok(())
    } else {
        Err(ApiError::InvalidPreview)
    }
}

/// How much a user has uploaded this month, and may.
#[derive(Debug, Clone, Copy, PartialEq, Eq, Structural)]
pub struct FilesystemStatus {
    pub quota_used: i64,
    pub quota_total: i64,
}

/// The upload quota of a user: the premium quota for premium users, and what the files
/// uploaded this month add up to (nothing when there are none).
pub fn filesystem_status(premium: bool, premium_quota: i64, quota: i64, used: Option<i64>) -> (s: FilesystemStatus)
    ensures
        s.quota_total == (if premium {
            premium_quota
        } else {
            quota
        }),
        s.quota_used == match used {
            Some(u) => u,
            None => 0,
        },
{
    let quota_total = if premium {
        premium_quota
    } else {
        quota
    };
    let quota_used = match used {
        Some(u) => u,
        None => 0,
    };
    FilesystemStatus { quota_used, quota_total }
}

/// Where an upload resumes: the length of what is stored of the file (read as a 32-bit
/// signed integer), or the start when nothing is stored yet.
pub fn upload_offset(stored_len: Option<u64>) -> (offset: i32)
    ensures
        offset == match stored_len {
            Some(n) => n as i32,
            None => 0,
        },
{
    match stored_len {
        Some(n) => n as i32,
        None => 0,
    }
}

/// What a `HEAD` request tells of an upload: the file's record, and where the upload
/// resumes.
pub struct UploadHead {
    pub size: i32,
    pub flags: i16,
    pub name: String,
    pub mime: Option<String>,
    pub preview: Option<Vec<u8>>,
    pub offset: i32,
}

impl UploadHead {
    /// Sets where the upload resumes from what is stored of the file: its length (read as a
    /// 32-bit signed integer); with nothing stored yet the offset stays as it is.
    pub fn resume_at(&mut self, stored_len: Option<u64>)
        ensures
            final(self).offset == match stored_len {
                Some(n) => n as i32,
                None => old(self).offset,
            },
            final(self).size == old(self).size,
            final(self).flags == old(self).flags,
            final(self).name == old(self).name,
            final(self).mime == old(self).mime,
            final(self).preview == old(self).preview,
    {
        if stored_len.is_some() {
            self.offset = upload_offset(stored_len);
        }
    }
}

} // verus!

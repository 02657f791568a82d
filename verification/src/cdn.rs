use vstd::prelude::*;

use crate::error::ApiError;

verus! {

use vstd::string::StringExecFns;
use vstd::string::StringSliceAdditionalSpecFns;
use vstd::utf8::encode_utf8;

/// What an asset served by the CDN belongs to.
#[derive(Debug, Clone, Copy, PartialEq, Eq, Structural)]
pub enum AssetKind {
    UserAvatar,
    UserBanner,
    RoleAvatar,
    PartyAvatar,
    PartyBanner,
    RoomAvatar,
    Emote,
    Sticker,
}

/// Emotes and stickers are looked up by their own id alone; other assets must also be the
/// one named by the asset id of the request.
pub fn asset_id_checked(kind: AssetKind) -> (b: bool)
    ensures
        b == !(kind == AssetKind::Emote || kind == AssetKind::Sticker),
{
    match kind {
        AssetKind::Emote | AssetKind::Sticker => false,
        _ => true,
    }
}

/// An attachment fetched with a file name must have been stored under that name.
pub fn check_attachment_name(stored: &str, provided: Option<&str>) -> (res: Result<(), ApiError>)
    ensures
        res == (if provided matches Some(p) && stored@ != p@ {
            Err(ApiError::NotFound)
        } else {
            Ok::<(), ApiError>(())
        }),
{
    match provided {
        Some(p) => {
            if !crate::messages::same_text(stored, p) {
                return Err(ApiError::NotFound);
            }
            Ok(())
        },
        None => Ok(()),
    }
}

/// The status of a file response.
#[derive(Debug, Clone, Copy, PartialEq, Eq, Structural)]
pub enum FileStatus {
    Full,
    PartialContent,
    RangeNotSatisfiable,
}

/// A `Content-Range`: the first byte sent, the end of the range, and the file's length.
#[derive(Debug, Clone, Copy, PartialEq, Eq, Structural)]
pub struct ContentRange {
    pub start: u64,
    pub end: u64,
    pub total: u64,
}

/// The part of a file sent as the body: its first byte and its length.
#[derive(Debug, Clone, Copy, PartialEq, Eq, Structural)]
pub struct BodyPart {
    pub start: u64,
    pub len: u64,
}

/// The `Content-Range` header of a file response.
#[derive(Debug, Clone, Copy, PartialEq, Eq, Structural)]
pub enum RangeHeader {
    /// None: the whole file is sent.
    Whole,
    /// The part sent.
    Part(ContentRange),
    /// No byte of the file was selected; the file has this length.
    Unsatisfied(u64),
}

/// How a file is answered: its status, `Content-Length`, `Content-Range`, and the part of
/// the file sent (first byte and length), where a body is sent.
#[derive(Debug, Clone, Copy, PartialEq, Eq, Structural)]
pub struct FileResponsePlan {
    pub status: FileStatus,
    pub content_length: u64,
    pub content_range: RangeHeader,
    pub body: Option<BodyPart>,
}

/// Answers a request for a file of `size` bytes. A `HEAD` request gets the length and no
/// body. Otherwise `range` is the byte range that the request's `Range` header selects (the
/// whole file without one), or `None` where it selects nothing: then the answer is
/// `416 Range Not Satisfiable`, with the total length. A range short of the whole file is
/// answered `206 Partial Content` with its `Content-Range`.
pub fn plan_file_response(is_head: bool, size: i32, range: Option<(u64, u64)>) -> (plan: FileResponsePlan)
    requires
        !is_head ==> (range matches Some((start, end)) ==> start <= end),
    ensures
        plan == (if is_head {
            FileResponsePlan {
                status: FileStatus::Full,
                content_length: size as u64,
                content_range: RangeHeader::Whole,
                body: None,
            }
        } else {
            match range {
                None => FileResponsePlan {
                    status: FileStatus::RangeNotSatisfiable,
                    content_length: 0,
                    content_range: RangeHeader::Unsatisfied(size as u64),
                    body: None,
                },
                Some((start, end)) => if (end - start) as u64 != size as u64 {
                    FileResponsePlan {
                        status: FileStatus::PartialContent,
                        content_length: (end - start) as u64,
                        content_range: RangeHeader::Part(ContentRange { start, end, total: size as u64 }),
                        body: Some(BodyPart { start, len: (end - start) as u64 }),
                    }
                } else {
                    FileResponsePlan {
                        status: FileStatus::Full,
                        content_length: size as u64,
                        content_range: RangeHeader::Whole,
                        body: Some(BodyPart { start, len: (end - start) as u64 }),
                    }
                },
            }
        }),
{
    let len = size as u64;
    if is_head {
        return FileResponsePlan { status: FileStatus::Full, content_length: len, content_range: RangeHeader::Whole, body: None };
    }
    match range {
        None => FileResponsePlan {
            status: FileStatus::RangeNotSatisfiable,
            content_length: 0,
            content_range: RangeHeader::Unsatisfied(len),
            body: None,
        },
        Some((start, end)) => {
            let sub_len = end - start;
            if len != sub_len {
                FileResponsePlan {
                    status: FileStatus::PartialContent,
                    content_length: sub_len,
                    content_range: RangeHeader::Part(ContentRange { start, end, total: len }),
                    body: Some(BodyPart { start, len: sub_len }),
                }
            } else {
                FileResponsePlan {
                    status: FileStatus::Full,
                    content_length: len,
                    content_range: RangeHeader::Whole,
                    body: Some(BodyPart { start, len: sub_len }),
                }
            }
        },
    }
}

/// The sending of a file body: how many bytes are owed, and how many were sent.
pub struct BodyStream {
    total: u64,
    sent: u64,
}

impl BodyStream {
    pub closed spec fn total(&self) -> u64 {
        self.total
    }

    pub closed spec fn sent(&self) -> u64 {
        self.sent
    }

    pub closed spec fn wf(&self) -> bool {
        self.sent <= self.total
    }

    /// Starts sending a body of `total` bytes.
    pub fn new(total: u64) -> (s: BodyStream)
        ensures
            s.wf(),
            s.total() == total,
            s.sent() == 0,
    {
        BodyStream { total, sent: 0 }
    }

    /// Whether every byte owed was sent.
    pub fn is_done(&self) -> (b: bool)
        requires
            self.wf(),
        ensures
            b == (self.sent() == self.total()),
    {
        self.sent == self.total
    }

    /// Takes a read of `n` bytes from the file: the number of them to send, at most what is
    /// still owed; or `None` at the end of the file, which ends the body early.
    pub fn on_read(&mut self, n: u64) -> (take: Option<u64>)
        requires
            old(self).wf(),
        ensures
            final(self).wf(),
            final(self).total() == old(self).total(),
            n == 0 ==> take is None && final(self).sent() == old(self).sent(),
            n != 0 ==> ({
                let owed = old(self).total() - old(self).sent();
                &&& take == Some(if n > owed { owed as u64 } else { n })
                &&& final(self).sent() == old(self).sent() + take->0
            }),
    {
        if n == 0 {
            return None;
        }
        let owed = self.total - self.sent;
        let take = if n > owed {
            owed
        } else {
            n
        };
        self.sent = self.sent + take;
        Some(take)
    }
}

/// Characters that URL encoding leaves as they are: ASCII letters and digits, `-`, `.`,
/// `_` and `~`.
pub open spec fn url_safe(b: u8) -> bool {
    (48 <= b <= 57) || (65 <= b <= 90) || (97 <= b <= 122) || b == 45 || b == 46 || b == 95 || b == 126
}

/// The upper-case hexadecimal digit of `d` (below 16).
pub open spec fn hex_digit(d: u8) -> char {
    if d < 10 {
        (48 + d) as char
    } else {
        (55 + d) as char
    }
}

/// The URL encoding of one byte.
pub open spec fn url_encode_byte(b: u8) -> Seq<char> {
    if url_safe(b) {
        seq![b as char]
    } else {
        seq!['%', hex_digit(b / 16), hex_digit(b % 16)]
    }
}

/// The URL encoding of a byte string, byte by byte.
pub open spec fn url_encoded(bytes: Seq<u8>) -> Seq<char>
    decreases bytes.len(),
{
    if bytes.len() == 0 {
        Seq::empty()
    } else {
        url_encoded(bytes.drop_last()) + url_encode_byte(bytes.last())
    }
}

/// URL-encodes the UTF-8 bytes of `s`.
///
/// Trusted: calls `urlencoding::encode`, which keeps ASCII letters, digits and `-._~` and
/// writes every other byte as `%` and two upper-case hexadecimal digits.
#[verifier::external_body]
fn url_encode(s: &str) -> (text: String)
    ensures
        text@ == url_encoded(s.spec_bytes()),
{
    urlencoding::encode(s).into_owned()
}

/// The `Content-Disposition` of a served file: an attachment when it is downloaded, inline
/// otherwise, with its URL-encoded name.
pub fn content_disposition(name: &str, download: bool) -> (cd: String)
    ensures
        cd@ == (if download {
            "attachment; filename=\""@
        } else {
            "inline; filename=\""@
        }) + url_encoded(name.spec_bytes()) + "\""@,
{
    let encoded = url_encode(name);
    let start = if download {
        String::from_str("attachment; filename=\"")
    } else {
        String::from_str("inline; filename=\"")
    };
    start.concat(encoded.as_str()).concat("\"")
}

/// The `Content-Type` of a served file: its MIME type, or `application/octet-stream` when
/// it has none.
pub fn content_type(mime: Option<&str>) -> (ct: String)
    ensures
        ct@ == match mime {
            Some(m) => m@,
            None => "application/octet-stream"@,
        },
{
    match mime {
        Some(m) => String::from_str(m),
        None => String::from_str("application/octet-stream"),
    }
}

/// The record of a stored file that the CDN serves.
pub struct ParsedFile {
    pub id: u64,
    pub size: i32,
    pub flags: i16,
    pub nonce: i64,
    pub name: String,
    pub mime: Option<String>,
}

impl ParsedFile {
    /// The `Content-Disposition` and `Content-Type` of the file.
    pub fn headers(&self, download: bool) -> (h: (String, String))
        ensures
            h.0@ == (if download {
                "attachment; filename=\""@
            } else {
                "inline; filename=\""@
            }) + url_encoded(encode_utf8(self.name@)) + "\""@,
            h.1@ == match self.mime {
                Some(m) => m@,
                None => "application/octet-stream"@,
            },
    {
        let mime = match &self.mime {
            Some(m) => Some(m.as_str()),
            None => None,
        };
        (content_disposition(self.name.as_str(), download), content_type(mime))
    }
}

/// The headers of a file response that sends the file (all but `416 Range Not
/// Satisfiable`): besides `Content-Range` (in the plan), caching for 31 days, byte ranges
/// accepted, the modification time, the length sent, and the file's disposition and type.
pub struct FileHeaders {
    pub cache_control: String,
    pub content_length: u64,
    pub accept_ranges: String,
    /// Seconds since the UNIX epoch, written as an HTTP date.
    pub last_modified: u64,
    pub content_disposition: String,
    pub content_type: String,
}

impl ParsedFile {
    /// The headers of a response that serves this file under `plan`, last modified at
    /// `last_modified`: none for an unsatisfiable range, which is answered bare.
    pub fn response_headers(&self, plan: &FileResponsePlan, download: bool, last_modified: u64) -> (res: Option<
        FileHeaders,
    >)
        ensures
            plan.status == FileStatus::RangeNotSatisfiable ==> res is None,
            plan.status != FileStatus::RangeNotSatisfiable ==> (res matches Some(h) && {
                &&& h.cache_control@ == "public, max-age=2678400"@
                &&& h.content_length == plan.content_length
                &&& h.accept_ranges@ == "bytes"@
                &&& h.last_modified == last_modified
                &&& h.content_disposition@ == (if download {
                    "attachment; filename=\""@
                } else {
                    "inline; filename=\""@
                }) + url_encoded(encode_utf8(self.name@)) + "\""@
                &&& h.content_type@ == match self.mime {
                    Some(m) => m@,
                    None => "application/octet-stream"@,
                }
            }),
    {
        if plan.status == FileStatus::RangeNotSatisfiable {
            return None;
        }
        let (content_disposition, content_type) = self.headers(download);
        Some(
            FileHeaders {
                cache_control: String::from_str("public, max-age=2678400"),
                content_length: plan.content_length,
                accept_ranges: String::from_str("bytes"),
                last_modified,
                content_disposition,
                content_type,
            },
        )
    }
}

} // verus!

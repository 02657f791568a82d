use vstd::prelude::*;

use crate::error::ApiError;

verus! {

use vstd::string::StringSliceAdditionalSpecFns;

/// What kind of user asset an image becomes.
#[derive(Debug, Clone, Copy, PartialEq, Eq, Structural)]
pub enum AssetMode {
    Avatar,
    Banner,
}

/// An image format that assets are encoded in.
#[derive(Debug, Clone, Copy, PartialEq, Eq, Structural)]
pub enum EncodingFormat {
    Jpeg,
    Png,
    Avif,
}

/// The qualities each format is encoded with.
pub struct FormatQualities {
    pub jpeg: Vec<u8>,
    pub avif: Vec<u8>,
    pub png: Vec<u8>,
}

/// The upload settings that assets follow.
pub struct AssetConfig {
    pub avatar_width: u32,
    pub banner_width: u32,
    pub banner_height: u32,
    pub max_avatar_pixels: u32,
    pub max_banner_pixels: u32,
    pub max_avatar_size: i32,
    pub max_banner_size: i32,
    pub avatar_formats: FormatQualities,
    pub banner_formats: FormatQualities,
}

/// The bounds an asset image is processed within.
#[derive(Debug, Clone, Copy, PartialEq, Eq, Structural)]
pub struct AssetLimits {
    pub max_width: u32,
    pub max_height: u32,
    pub max_pixels: u32,
    pub max_size: i32,
}

/// The bounds for assets of the given kind: avatars are square.
pub fn asset_limits(mode: AssetMode, config: &AssetConfig) -> (l: AssetLimits)
    ensures
        l == match mode {
            AssetMode::Avatar => AssetLimits {
                max_width: config.avatar_width,
                max_height: config.avatar_width,
                max_pixels: config.max_avatar_pixels,
                max_size: config.max_avatar_size,
            },
            AssetMode::Banner => AssetLimits {
                max_width: config.banner_width,
                max_height: config.banner_height,
                max_pixels: config.max_banner_pixels,
                max_size: config.max_banner_size,
            },
        },
{
    match mode {
        AssetMode::Avatar => AssetLimits {
            max_width: config.avatar_width,
            max_height: config.avatar_width,
            max_pixels: config.max_avatar_pixels,
            max_size: config.max_avatar_size,
        },
        AssetMode::Banner => AssetLimits {
            max_width: config.banner_width,
            max_height: config.banner_height,
            max_pixels: config.max_banner_pixels,
            max_size: config.max_banner_size,
        },
    }
}

/// The encodings of one format, one per quality, in order.
pub open spec fn with_format(format: EncodingFormat, qualities: Seq<u8>) -> Seq<(EncodingFormat, u8)> {
    Seq::new(qualities.len(), |i: int| (format, qualities[i]))
}

/// The encodings planned for an asset: JPEG first, then AVIF, then PNG. They are taken from
/// the back, so JPEG, which premultiplies any alpha channel, is encoded last.
pub open spec fn planned_formats(q: FormatQualities) -> Seq<(EncodingFormat, u8)> {
    with_format(EncodingFormat::Jpeg, q.jpeg@) + with_format(EncodingFormat::Avif, q.avif@)
        + with_format(EncodingFormat::Png, q.png@)
}

/// No JPEG encoding comes after another format.
pub open spec fn jpeg_first(s: Seq<(EncodingFormat, u8)>) -> bool {
    forall|a: int, b: int| 0 <= a < b < s.len() && (#[trigger] s[b]).0 == EncodingFormat::Jpeg ==> (#[trigger] s[a]).0 == EncodingFormat::Jpeg
}

fn extend_with(all: &mut Vec<(EncodingFormat, u8)>, format: EncodingFormat, qualities: &Vec<u8>)
    ensures
        final(all)@ == old(all)@ + with_format(format, qualities@),
{
    let ghost start = all@;
    for i in 0..qualities.len()
        invariant
            all@ == start + with_format(format, qualities@.subrange(0, i as int)),
    {
        all.push((format, qualities[i]));
        proof {
            assert(with_format(format, qualities@.subrange(0, i + 1)) =~= with_format(format, qualities@.subrange(0, i as int)).push((format, qualities@[i as int])));
        }
    }
    proof {
        assert(qualities@.subrange(0, qualities@.len() as int) =~= qualities@);
    }
}

/// The encodings to make of an asset of the given kind.
pub fn gen_formats(mode: AssetMode, config: &AssetConfig) -> (all: Vec<(EncodingFormat, u8)>)
    ensures
        all@ == planned_formats(match mode {
            AssetMode::Avatar => config.avatar_formats,
            AssetMode::Banner => config.banner_formats,
        }),
        jpeg_first(all@),
{
    let formats = match mode {
        AssetMode::Avatar => &config.avatar_formats,
        AssetMode::Banner => &config.banner_formats,
    };
    let mut all: Vec<(EncodingFormat, u8)> = Vec::new();
    extend_with(&mut all, EncodingFormat::Jpeg, &formats.jpeg);
    extend_with(&mut all, EncodingFormat::Avif, &formats.avif);
    extend_with(&mut all, EncodingFormat::Png, &formats.png);
    proof {
        assert(all@ =~= planned_formats(*formats));
        let nj = formats.jpeg@.len() as int;
        assert forall|a: int, b: int| 0 <= a < b < all@.len() && (#[trigger] all@[b]).0 == EncodingFormat::Jpeg implies (#[trigger] all@[a]).0 == EncodingFormat::Jpeg by {
            assert(b < nj);
        }
    }
    all
}

/// The bytes of "image".
pub open spec fn image_prefix() -> Seq<u8> {
    seq![105u8, 109u8, 97u8, 103u8, 101u8]
}

/// `s` begins with `prefix`.
pub open spec fn starts_with(s: Seq<u8>, prefix: Seq<u8>) -> bool {
    prefix.len() <= s.len() && s.subrange(0, prefix.len() as int) == prefix
}

fn bytes_start_with(s: &[u8], prefix: &[u8]) -> (b: bool)
    ensures
        b == starts_with(s@, prefix@),
{
    if prefix.len() > s.len() {
        return false;
    }
    let mut i: usize = 0;
    while i < prefix.len()
        invariant
            prefix@.len() <= s@.len(),
            i <= prefix@.len(),
            forall|k: int| 0 <= k < i ==> s@[k] == prefix@[k],
        decreases prefix@.len() - i,
    {
        if s[i] != prefix[i] {
            assert(s@.subrange(0, prefix@.len() as int)[i as int] != prefix@[i as int]);
            return false;
        }
        i = i + 1;
    }
    assert(s@.subrange(0, prefix@.len() as int) =~= prefix@);
    true
}

/// The file to make an asset of must be an image, when its type is known
/// (`InvalidImageFormat`), and no larger than allowed (`RequestEntityTooLarge`).
pub fn check_source_file(mime: Option<&str>, size: i32, max_size: i32) -> (res: Result<(), ApiError>)
    ensures
        res == (if mime matches Some(m) && !starts_with(m.spec_bytes(), image_prefix()) {
            Err(ApiError::InvalidImageFormat)
        } else if size > max_size {
            Err(ApiError::RequestEntityTooLarge)
        } else {
            Ok::<(), ApiError>(())
        }),
{
    match mime {
        Some(m) => {
            let prefix: [u8; 5] = [105u8, 109u8, 97u8, 103u8, 101u8];
            assert(prefix@ =~= image_prefix());
            if !bytes_start_with(m.as_bytes(), prefix.as_slice()) {
                return Err(ApiError::InvalidImageFormat);
            }
        },
        None => {},
    }
    if size > max_size {
        return Err(ApiError::RequestEntityTooLarge);
    }
    Ok(())
}

/// Why the image process refused an image.
#[derive(Debug, Clone, Copy, PartialEq, Eq, Structural)]
pub enum ProcessFailure {
    FileTooLarge,
    ImageTooLarge,
    InvalidImageFormat,
    UnsupportedFormat,
    DecodingError,
    Other,
}

/// The error reported for a refusal of the image process.
pub open spec fn failure_error(e: ProcessFailure) -> ApiError {
    match e {
        ProcessFailure::FileTooLarge | ProcessFailure::ImageTooLarge => ApiError::RequestEntityTooLarge,
        ProcessFailure::InvalidImageFormat | ProcessFailure::UnsupportedFormat
        | ProcessFailure::DecodingError => ApiError::InvalidImageFormat,
        ProcessFailure::Other => ApiError::InternalError,
    }
}

/// A refusal of the image for its format (invalid, unsupported or undecodable) is the
/// client's `InvalidImageFormat`, one for its size is `RequestEntityTooLarge`, and only an
/// other failure is an internal error.
pub proof fn lemma_failure_classes(e: ProcessFailure)
    ensures
        (e == ProcessFailure::InvalidImageFormat || e == ProcessFailure::UnsupportedFormat
            || e == ProcessFailure::DecodingError) <==> failure_error(e) == ApiError::InvalidImageFormat,
        (e == ProcessFailure::FileTooLarge || e == ProcessFailure::ImageTooLarge) <==> failure_error(e)
            == ApiError::RequestEntityTooLarge,
        e == ProcessFailure::Other <==> failure_error(e) == ApiError::InternalError,
{
}

/// The error that a refusal of the image process is reported as.
pub fn process_error(e: ProcessFailure) -> (err: ApiError)
    ensures
        err == failure_error(e),
        (e == ProcessFailure::InvalidImageFormat || e == ProcessFailure::UnsupportedFormat
            || e == ProcessFailure::DecodingError) <==> err == ApiError::InvalidImageFormat,
        (e == ProcessFailure::FileTooLarge || e == ProcessFailure::ImageTooLarge) <==> err
            == ApiError::RequestEntityTooLarge,
        e == ProcessFailure::Other <==> err == ApiError::InternalError,
{
    proof {
        lemma_failure_classes(e);
    }
    match e {
        ProcessFailure::FileTooLarge | ProcessFailure::ImageTooLarge => ApiError::RequestEntityTooLarge,
        ProcessFailure::InvalidImageFormat | ProcessFailure::UnsupportedFormat
        | ProcessFailure::DecodingError => ApiError::InvalidImageFormat,
        ProcessFailure::Other => ApiError::InternalError,
    }
}

/// What the image process reports of a decoded image.
#[derive(Debug, PartialEq, Eq)]
pub struct ProcessedImage {
    pub width: u32,
    pub height: u32,
    pub has_alpha: bool,
    pub preview: Vec<u8>,
}

/// A message from the image process.
pub enum ProcessEvent {
    Ready,
    Processed(ProcessedImage),
    Failed(ProcessFailure),
    Encoded,
}

/// What to do next with the image process.
#[derive(Debug, Clone, Copy, PartialEq, Eq, Structural)]
pub enum ProcessAction {
    /// Set the bounds, then send the file of `length` bytes to be processed.
    Initialize { width: u32, height: u32, max_pixels: u32, length: u64 },
    /// Ask for an encoding.
    Encode { format: EncodingFormat, quality: u8 },
    /// Store the encoding that just came, then report it with `on_stored`.
    Store { format: EncodingFormat, quality: u8 },
    /// Tell the process to exit: every encoding is stored.
    Exit,
    /// Nothing to do but wait for the next message.
    Wait,
    /// Give up with this error.
    Fail(ApiError),
}

/// An encoding of the asset, stored as a file.
#[derive(Debug, Clone, Copy, PartialEq, Eq, Structural)]
pub struct StoredEncoding {
    pub file_id: u64,
    pub format: EncodingFormat,
    pub quality: u8,
}

/// The conversation with the image process that turns a file into an asset: the encodings
/// still to ask for, the one under way, the processed image, and the encodings stored.
pub struct AssetEncoder {
    limits: AssetLimits,
    size: i32,
    pending: Vec<(EncodingFormat, u8)>,
    current: Option<(EncodingFormat, u8)>,
    processed: Option<ProcessedImage>,
    stored: Vec<StoredEncoding>,
    planned: Ghost<Seq<(EncodingFormat, u8)>>,
}

/// The format and quality of a stored encoding.
pub open spec fn encoding_of(s: StoredEncoding) -> (EncodingFormat, u8) {
    (s.format, s.quality)
}

/// The record of an encoding stored as the file `file_id`.
pub open spec fn stored_as(file_id: u64, enc: (EncodingFormat, u8)) -> StoredEncoding {
    StoredEncoding { file_id, format: enc.0, quality: enc.1 }
}

impl AssetEncoder {
    /// The encodings planned when the conversation began.
    pub closed spec fn planned(&self) -> Seq<(EncodingFormat, u8)> {
        self.planned@
    }

    /// The encoding under way.
    pub closed spec fn current(&self) -> Option<(EncodingFormat, u8)> {
        self.current
    }

    /// The processed image, once reported.
    pub closed spec fn processed(&self) -> Option<ProcessedImage> {
        self.processed
    }

    /// The encodings stored so far, in order.
    pub closed spec fn stored(&self) -> Seq<StoredEncoding> {
        self.stored@
    }

    pub closed spec fn limits(&self) -> AssetLimits {
        self.limits
    }

    pub closed spec fn size(&self) -> i32 {
        self.size
    }

    /// The encodings are asked for from the back of the plan: those stored, then the one
    /// under way, then the rest.
    pub closed spec fn wf(&self) -> bool {
        let cur: Seq<(EncodingFormat, u8)> = match self.current {
            Some(c) => seq![c],
            None => Seq::empty(),
        };
        &&& self.planned@ == self.pending@ + cur + self.stored@.map_values(|s: StoredEncoding| encoding_of(s)).reverse()
        &&& self.current is None ==> self.pending@.len() == 0
    }

    /// The encodings stored so far, as (format, quality) pairs.
    pub open spec fn stored_encodings(&self) -> Seq<(EncodingFormat, u8)> {
        self.stored().map_values(|s: StoredEncoding| encoding_of(s))
    }

    /// Starts a conversation for a file of `size` bytes, with the planned encodings.
    pub fn new(limits: AssetLimits, size: i32, formats: Vec<(EncodingFormat, u8)>) -> (enc: AssetEncoder)
        ensures
            enc.wf(),
            enc.planned() == formats@,
            enc.limits() == limits,
            enc.size() == size,
            enc.processed() is None,
            enc.stored().len() == 0,
            enc.current() == (if formats@.len() == 0 {
                None
            } else {
                Some(formats@.last())
            }),
    {
        let ghost planned = formats@;
        let mut pending = formats;
        let current = pending.pop();
        let enc = AssetEncoder {
            limits,
            size,
            pending,
            current,
            processed: None,
            stored: Vec::new(),
            planned: Ghost(planned),
        };
        proof {
            assert(enc.stored@.map_values(|s: StoredEncoding| encoding_of(s)).reverse() =~= Seq::empty());
            if planned.len() > 0 {
                assert(planned =~= enc.pending@ + seq![planned.last()] + Seq::empty());
            } else {
                assert(planned =~= enc.pending@ + Seq::empty() + Seq::empty());
            }
        }
        enc
    }

    /// Decides what to do on a message of the image process.
    pub fn on_event(&mut self, event: ProcessEvent) -> (action: ProcessAction)
        requires
            old(self).wf(),
        ensures
            final(self).wf(),
            final(self).planned() == old(self).planned(),
            final(self).current() == old(self).current(),
            final(self).stored() == old(self).stored(),
            final(self).limits() == old(self).limits(),
            final(self).size() == old(self).size(),
            match event {
                ProcessEvent::Processed(p) => final(self).processed() == Some(p),
                _ => final(self).processed() == old(self).processed(),
            },
            action == match event {
                ProcessEvent::Ready => ProcessAction::Initialize {
                    width: old(self).limits().max_width,
                    height: old(self).limits().max_height,
                    max_pixels: old(self).limits().max_pixels,
                    length: old(self).size() as u64,
                },
                ProcessEvent::Processed(_) => match old(self).current() {
                    Some((f, q)) => ProcessAction::Encode { format: f, quality: q },
                    None => ProcessAction::Wait,
                },
                ProcessEvent::Failed(e) => ProcessAction::Fail(failure_error(e)),
                ProcessEvent::Encoded => match old(self).current() {
                    None => ProcessAction::Wait,
                    Some((f, q)) => if old(self).processed() is None {
                        ProcessAction::Fail(ApiError::InternalError)
                    } else {
                        ProcessAction::Store { format: f, quality: q }
                    },
                },
            },
    {
        match event {
            ProcessEvent::Ready => ProcessAction::Initialize {
                width: self.limits.max_width,
                height: self.limits.max_height,
                max_pixels: self.limits.max_pixels,
                length: self.size as u64,
            },
            ProcessEvent::Processed(p) => {
                self.processed = Some(p);
                match self.current {
                    Some((f, q)) => ProcessAction::Encode { format: f, quality: q },
                    None => ProcessAction::Wait,
                }
            },
            ProcessEvent::Failed(e) => ProcessAction::Fail(process_error(e)),
            ProcessEvent::Encoded => match self.current {
                None => ProcessAction::Wait,
                Some((f, q)) => {
                    if self.processed.is_none() {
                        ProcessAction::Fail(ApiError::InternalError)
                    } else {
                        ProcessAction::Store { format: f, quality: q }
                    }
                },
            },
        }
    }

    /// Records that the encoding under way was stored as the file `file_id`, and moves on
    /// to the next encoding, or to the end when none is left.
    pub fn on_stored(&mut self, file_id: u64) -> (action: ProcessAction)
        requires
            old(self).wf(),
            old(self).current() is Some,
        ensures
            final(self).wf(),
            final(self).planned() == old(self).planned(),
            final(self).processed() == old(self).processed(),
            final(self).limits() == old(self).limits(),
            final(self).size() == old(self).size(),
            final(self).stored() == old(self).stored().push(stored_as(file_id, old(self).current()->0)),
            action == match final(self).current() {
                Some((f, q)) => ProcessAction::Encode { format: f, quality: q },
                None => ProcessAction::Exit,
            },
            final(self).current() == (if old(self).stored().len() + 1 == old(self).planned().len() {
                None
            } else {
                Some(old(self).planned()[old(self).planned().len() - old(self).stored().len() - 2])
            }),
    {
        let ghost old_pending = self.pending@;
        let ghost old_stored = self.stored@;
        let (f, q) = match self.current {
            Some(c) => c,
            None => (EncodingFormat::Jpeg, 0),
        };
        self.stored.push(StoredEncoding { file_id, format: f, quality: q });
        self.current = self.pending.pop();
        proof {
            let done_old = old_stored.map_values(|s: StoredEncoding| encoding_of(s));
            let done_new = self.stored@.map_values(|s: StoredEncoding| encoding_of(s));
            assert(done_new =~= done_old.push((f, q)));
            assert(done_new.reverse() =~= seq![(f, q)] + done_old.reverse());
            let cur: Seq<(EncodingFormat, u8)> = match self.current {
                Some(c) => seq![c],
                None => Seq::empty(),
            };
            assert(old_pending =~= self.pending@ + cur);
            assert(self.planned@ =~= self.pending@ + cur + done_new.reverse());
        }
        match self.current {
            Some((f, q)) => ProcessAction::Encode { format: f, quality: q },
            None => ProcessAction::Exit,
        }
    }

    /// Ends the conversation: the image must have been processed; the result is the
    /// processed image and the encodings stored.
    pub fn finish(self) -> (res: Result<(ProcessedImage, Vec<StoredEncoding>), ApiError>)
        ensures
            match self.processed() {
                None => res == Err::<(ProcessedImage, Vec<StoredEncoding>), ApiError>(ApiError::InternalError),
                Some(p) => res matches Ok((img, stored)) && img == p && stored@ == self.stored(),
            },
    {
        match self.processed {
            None => Err(ApiError::InternalError),
            Some(p) => Ok((p, self.stored)),
        }
    }
}

/// The flags of a stored encoding of an asset.
#[derive(Debug, Clone, Copy, PartialEq, Eq, Structural)]
pub struct AssetFileFlags {
    pub format: EncodingFormat,
    pub quality: u8,
    pub has_alpha: bool,
}

/// The flags recorded for an encoding: JPEGs never have an alpha channel, and PNGs are
/// lossless, which is quality 127.
pub fn asset_file_flags(format: EncodingFormat, quality: u8, image_has_alpha: bool) -> (f: AssetFileFlags)
    ensures
        f == match format {
            EncodingFormat::Jpeg => AssetFileFlags { format, quality, has_alpha: false },
            EncodingFormat::Png => AssetFileFlags { format, quality: 127, has_alpha: image_has_alpha },
            EncodingFormat::Avif => AssetFileFlags { format, quality, has_alpha: image_has_alpha },
        },
{
    let flags = AssetFileFlags { format, quality, has_alpha: image_has_alpha };
    match format {
        EncodingFormat::Jpeg => AssetFileFlags { has_alpha: false, ..flags },
        EncodingFormat::Png => AssetFileFlags { quality: 127, ..flags },
        EncodingFormat::Avif => flags,
    }
}

/// The file extension of an encoding, also the subtype of its MIME type.
pub fn format_extension(format: EncodingFormat) -> (ext: &'static str)
    ensures
        ext@ == match format {
            EncodingFormat::Jpeg => "jpeg"@,
            EncodingFormat::Png => "png"@,
            EncodingFormat::Avif => "avif"@,
        },
{
    match format {
        EncodingFormat::Jpeg => "jpeg",
        EncodingFormat::Png => "png",
        EncodingFormat::Avif => "avif",
    }
}

/// The encodings are stored in the reverse order of the plan: what is stored is always the
/// beginning of the reversed plan.
pub proof fn lemma_stored_in_reverse_plan(enc: &AssetEncoder)
    requires
        enc.wf(),
    ensures
        enc.stored().len() <= enc.planned().len(),
        enc.stored_encodings() == enc.planned().reverse().subrange(0, enc.stored().len() as int),
{
    let done = enc.stored@.map_values(|s: StoredEncoding| encoding_of(s));
    let cur: Seq<(EncodingFormat, u8)> = match enc.current {
        Some(c) => seq![c],
        None => Seq::empty(),
    };
    let front = enc.pending@ + cur;
    assert(enc.planned@ == front + done.reverse());
    assert forall|k: int| 0 <= k < done.len() implies enc.planned@.reverse()[k] == done[k] by {
        assert(enc.planned@[enc.planned@.len() - 1 - k] == done.reverse()[done.len() - 1 - k]);
    }
    assert(enc.stored_encodings() =~= enc.planned().reverse().subrange(0, enc.stored().len() as int));
}

/// When the plan puts JPEG first, as `gen_formats` does, no other format is stored after a
/// JPEG encoding: JPEG, which premultiplies the alpha channel, is encoded last.
pub proof fn lemma_jpeg_stored_last(enc: &AssetEncoder)
    requires
        enc.wf(),
        jpeg_first(enc.planned()),
    ensures
        forall|a: int, b: int| 0 <= a < b < enc.stored().len() && (#[trigger] enc.stored()[a]).format == EncodingFormat::Jpeg
            ==> (#[trigger] enc.stored()[b]).format == EncodingFormat::Jpeg,
{
    lemma_stored_in_reverse_plan(enc);
    let p = enc.planned();
    let n = p.len();
    assert forall|a: int, b: int| 0 <= a < b < enc.stored().len() && (#[trigger] enc.stored()[a]).format == EncodingFormat::Jpeg
        implies (#[trigger] enc.stored()[b]).format == EncodingFormat::Jpeg by {
        assert(enc.stored_encodings()[a] == p.reverse()[a]);
        assert(enc.stored_encodings()[b] == p.reverse()[b]);
        assert(p.reverse()[a] == p[n - 1 - a]);
        assert(p.reverse()[b] == p[n - 1 - b]);
        assert(p[n - 1 - a].0 == EncodingFormat::Jpeg);
        assert(p[n - 1 - b].0 == EncodingFormat::Jpeg);
    }
}

} // verus!

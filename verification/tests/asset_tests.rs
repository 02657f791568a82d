use lantern_backend::asset::{
    asset_file_flags, asset_limits, check_source_file, format_extension, gen_formats, process_error, AssetConfig,
    AssetEncoder, AssetFileFlags, AssetLimits, AssetMode, EncodingFormat, FormatQualities, ProcessAction,
    ProcessEvent, ProcessFailure, ProcessedImage, StoredEncoding,
};
use lantern_backend::cdn::{
    asset_id_checked, check_attachment_name, content_disposition, content_type, plan_file_response, AssetKind,
    BodyPart, BodyStream, ContentRange, FileStatus, ParsedFile, RangeHeader,
};
use lantern_backend::error::ApiError;

fn config() -> AssetConfig {
    AssetConfig {
        avatar_width: 256,
        banner_width: 1600,
        banner_height: 900,
        max_avatar_pixels: 1000,
        max_banner_pixels: 2000,
        max_avatar_size: 100,
        max_banner_size: 200,
        avatar_formats: FormatQualities { jpeg: vec![80, 40], avif: vec![60], png: vec![100] },
        banner_formats: FormatQualities { jpeg: vec![90], avif: vec![], png: vec![] },
    }
}

#[test]
fn asset_limits_by_mode() {
    let c = config();
    assert_eq!(asset_limits(AssetMode::Avatar, &c), AssetLimits { max_width: 256, max_height: 256, max_pixels: 1000, max_size: 100 });
    assert_eq!(asset_limits(AssetMode::Banner, &c), AssetLimits { max_width: 1600, max_height: 900, max_pixels: 2000, max_size: 200 });
}

#[test]
fn formats_put_jpeg_first() {
    let c = config();
    assert_eq!(
        gen_formats(AssetMode::Avatar, &c),
        vec![(EncodingFormat::Jpeg, 80), (EncodingFormat::Jpeg, 40), (EncodingFormat::Avif, 60), (EncodingFormat::Png, 100)]
    );
    assert_eq!(gen_formats(AssetMode::Banner, &c), vec![(EncodingFormat::Jpeg, 90)]);
}

#[test]
fn source_file_checks() {
    assert_eq!(check_source_file(Some("image/png"), 10, 100), Ok(()));
    assert_eq!(check_source_file(None, 10, 100), Ok(()));
    assert_eq!(check_source_file(Some("video/mp4"), 10, 100), Err(ApiError::InvalidImageFormat));
    assert_eq!(check_source_file(Some("imag"), 10, 100), Err(ApiError::InvalidImageFormat));
    assert_eq!(check_source_file(Some("image/png"), 101, 100), Err(ApiError::RequestEntityTooLarge));
    assert_eq!(process_error(ProcessFailure::ImageTooLarge), ApiError::RequestEntityTooLarge);
    assert_eq!(process_error(ProcessFailure::DecodingError), ApiError::InvalidImageFormat);
    assert_eq!(process_error(ProcessFailure::Other), ApiError::InternalError);
}

fn image() -> ProcessedImage {
    ProcessedImage { width: 10, height: 20, has_alpha: true, preview: vec![1, 2] }
}

#[test]
fn encoder_conversation() {
    let c = config();
    let limits = asset_limits(AssetMode::Avatar, &c);
    let mut enc = AssetEncoder::new(limits, 42, gen_formats(AssetMode::Avatar, &c));
    assert_eq!(
        enc.on_event(ProcessEvent::Ready),
        ProcessAction::Initialize { width: 256, height: 256, max_pixels: 1000, length: 42 }
    );
    assert_eq!(enc.on_event(ProcessEvent::Processed(image())), ProcessAction::Encode { format: EncodingFormat::Png, quality: 100 });
    assert_eq!(enc.on_event(ProcessEvent::Encoded), ProcessAction::Store { format: EncodingFormat::Png, quality: 100 });
    assert_eq!(enc.on_stored(1), ProcessAction::Encode { format: EncodingFormat::Avif, quality: 60 });
    assert_eq!(enc.on_event(ProcessEvent::Encoded), ProcessAction::Store { format: EncodingFormat::Avif, quality: 60 });
    assert_eq!(enc.on_stored(2), ProcessAction::Encode { format: EncodingFormat::Jpeg, quality: 40 });
    assert_eq!(enc.on_event(ProcessEvent::Encoded), ProcessAction::Store { format: EncodingFormat::Jpeg, quality: 40 });
    assert_eq!(enc.on_stored(3), ProcessAction::Encode { format: EncodingFormat::Jpeg, quality: 80 });
    assert_eq!(enc.on_event(ProcessEvent::Encoded), ProcessAction::Store { format: EncodingFormat::Jpeg, quality: 80 });
    assert_eq!(enc.on_stored(4), ProcessAction::Exit);
    assert_eq!(enc.on_event(ProcessEvent::Encoded), ProcessAction::Wait);
    let (img, stored) = enc.finish().ok().unwrap();
    assert_eq!(img, image());
    assert_eq!(
        stored,
        vec![
            StoredEncoding { file_id: 1, format: EncodingFormat::Png, quality: 100 },
            StoredEncoding { file_id: 2, format: EncodingFormat::Avif, quality: 60 },
            StoredEncoding { file_id: 3, format: EncodingFormat::Jpeg, quality: 40 },
            StoredEncoding { file_id: 4, format: EncodingFormat::Jpeg, quality: 80 },
        ]
    );
}

#[test]
fn encoder_failures() {
    let c = config();
    let mut enc = AssetEncoder::new(asset_limits(AssetMode::Banner, &c), 1, gen_formats(AssetMode::Banner, &c));
    // an encoding before the image was processed
    assert_eq!(enc.on_event(ProcessEvent::Encoded), ProcessAction::Fail(ApiError::InternalError));
    assert_eq!(enc.on_event(ProcessEvent::Failed(ProcessFailure::FileTooLarge)), ProcessAction::Fail(ApiError::RequestEntityTooLarge));
    assert!(enc.finish().is_err());
    let enc = AssetEncoder::new(asset_limits(AssetMode::Banner, &c), 1, vec![]);
    assert_eq!(enc.finish().err(), Some(ApiError::InternalError));
    let mut enc = AssetEncoder::new(asset_limits(AssetMode::Banner, &c), 1, vec![]);
    assert_eq!(enc.on_event(ProcessEvent::Processed(image())), ProcessAction::Wait);
    let (_, stored) = enc.finish().ok().unwrap();
    assert!(stored.is_empty());
}

#[test]
fn asset_flags_by_format() {
    assert_eq!(asset_file_flags(EncodingFormat::Jpeg, 80, true), AssetFileFlags { format: EncodingFormat::Jpeg, quality: 80, has_alpha: false });
    assert_eq!(asset_file_flags(EncodingFormat::Png, 80, true), AssetFileFlags { format: EncodingFormat::Png, quality: 127, has_alpha: true });
    assert_eq!(asset_file_flags(EncodingFormat::Avif, 60, false), AssetFileFlags { format: EncodingFormat::Avif, quality: 60, has_alpha: false });
    assert_eq!(format_extension(EncodingFormat::Jpeg), "jpeg");
    assert_eq!(format_extension(EncodingFormat::Avif), "avif");
    assert_eq!(format_extension(EncodingFormat::Png), "png");
}

#[test]
fn cdn_lookups() {
    assert!(!asset_id_checked(AssetKind::Emote));
    assert!(!asset_id_checked(AssetKind::Sticker));
    assert!(asset_id_checked(AssetKind::UserAvatar));
    assert_eq!(check_attachment_name("a.png", Some("a.png")), Ok(()));
    assert_eq!(check_attachment_name("a.png", Some("b.png")), Err(ApiError::NotFound));
    assert_eq!(check_attachment_name("a.png", None), Ok(()));
}

#[test]
fn file_responses() {
    let head = plan_file_response(true, 100, None);
    assert_eq!(head.status, FileStatus::Full);
    assert_eq!(head.content_length, 100);
    assert_eq!(head.body, None);
    let full = plan_file_response(false, 100, Some((0, 100)));
    assert_eq!(full.status, FileStatus::Full);
    assert_eq!(full.content_range, RangeHeader::Whole);
    assert_eq!(full.body, Some(BodyPart { start: 0, len: 100 }));
    let part = plan_file_response(false, 100, Some((10, 20)));
    assert_eq!(part.status, FileStatus::PartialContent);
    assert_eq!(part.content_length, 10);
    assert_eq!(part.content_range, RangeHeader::Part(ContentRange { start: 10, end: 20, total: 100 }));
    assert_eq!(part.body, Some(BodyPart { start: 10, len: 10 }));
    let bad = plan_file_response(false, 100, None);
    assert_eq!(bad.status, FileStatus::RangeNotSatisfiable);
    assert_eq!(bad.content_range, RangeHeader::Unsatisfied(100));
    assert_eq!(bad.body, None);
}

#[test]
fn body_stream_sends_what_is_owed() {
    let mut s = BodyStream::new(10);
    assert!(!s.is_done());
    assert_eq!(s.on_read(4), Some(4));
    assert_eq!(s.on_read(8), Some(6));
    assert!(s.is_done());
    let mut s = BodyStream::new(10);
    assert_eq!(s.on_read(0), None);
    assert!(!s.is_done());
}

#[test]
fn content_disposition_encodes_names() {
    assert_eq!(content_disposition("a b&c.txt", true), "attachment; filename=\"a%20b%26c.txt\"");
    assert_eq!(content_disposition("ü-_.~", false), "inline; filename=\"%C3%BC-_.~\"");
}

#[test]
fn served_file_headers() {
    assert_eq!(content_type(Some("image/png")), "image/png");
    assert_eq!(content_type(None), "application/octet-stream");
    let file = ParsedFile { id: 7, size: 3, flags: 0, nonce: 1, name: "my file.txt".to_string(), mime: None };
    let (cd, ct) = file.headers(true);
    assert_eq!(cd, "attachment; filename=\"my%20file.txt\"");
    assert_eq!(ct, "application/octet-stream");
    let file = ParsedFile { mime: Some("text/plain".to_string()), ..file };
    let (cd, ct) = file.headers(false);
    assert_eq!(cd, "inline; filename=\"my%20file.txt\"");
    assert_eq!(ct, "text/plain");
}

#[test]
fn served_file_response_headers() {
    let file = ParsedFile { id: 7, size: 10, flags: 0, nonce: 1, name: "a.txt".to_string(), mime: None };
    let plan = plan_file_response(false, 10, Some((2, 5)));
    let h = file.response_headers(&plan, false, 1234).unwrap();
    assert_eq!(h.cache_control, "public, max-age=2678400");
    assert_eq!(h.accept_ranges, "bytes");
    assert_eq!(h.content_length, 3);
    assert_eq!(h.last_modified, 1234);
    assert_eq!(h.content_disposition, "inline; filename=\"a.txt\"");
    assert_eq!(h.content_type, "application/octet-stream");
    let unsatisfied = plan_file_response(false, 10, None);
    assert!(file.response_headers(&unsatisfied, false, 1234).is_none());
    let head = plan_file_response(true, 10, None);
    assert_eq!(file.response_headers(&head, true, 0).unwrap().content_length, 10);
}

use lantern_backend::error::ApiError;
use lantern_backend::upload::{FilePatch, FilePatchParams, UploadSession};

fn params(crc32: u32, upload_offset: u32, content_length: u64) -> FilePatchParams {
    FilePatchParams { crc32, upload_offset, content_length }
}

const HELLO_CRC: u32 = 0x3610a686;

#[test]
fn begin_refuses_completed_and_misplaced_uploads() {
    assert_eq!(UploadSession::begin(10, true, false, 0, &params(0, 0, 5)).err(), Some(ApiError::Conflict));
    assert_eq!(UploadSession::begin(10, false, false, 3, &params(0, 0, 5)).err(), Some(ApiError::Conflict));
    assert_eq!(
        UploadSession::begin(10, false, false, 6, &params(0, 6, 5)).err(),
        Some(ApiError::RequestEntityTooLarge)
    );
}

#[test]
fn upload_whole_file_with_good_checksum() {
    let mut s = UploadSession::begin(5, false, true, 0, &params(HELLO_CRC, 0, 5)).unwrap();
    assert!(s.accept_chunk(b"he").is_ok());
    s.wrote();
    assert!(s.accept_chunk(b"llo").is_ok());
    s.wrote();
    let done = s.finish().ok().unwrap();
    assert_eq!(done.patch, FilePatch { complete: true, upload_offset: 5 });
    assert!(done.mark_complete);
    assert_eq!(done.mime_prefix, Some(b"hello".to_vec()));
}

#[test]
fn upload_partial_file_appends() {
    let mut s = UploadSession::begin(100, false, true, 10, &params(HELLO_CRC, 10, 5)).unwrap();
    assert!(s.accept_chunk(b"hello").is_ok());
    s.wrote();
    let done = s.finish().ok().unwrap();
    assert_eq!(done.patch, FilePatch { complete: false, upload_offset: 15 });
    assert!(!done.mark_complete);
    // the prefix is only read at the start of a file
    assert_eq!(done.mime_prefix, None);
}

#[test]
fn upload_checksum_mismatch_rewinds() {
    let mut s = UploadSession::begin(5, false, false, 0, &params(1234, 0, 5)).unwrap();
    assert!(s.accept_chunk(b"hello").is_ok());
    s.wrote();
    let failure = s.finish().err().unwrap();
    assert_eq!(failure.error, ApiError::ChecksumMismatch);
    assert_eq!(failure.rewind_to, Some(0));
}

#[test]
fn upload_too_long_body_fails() {
    let mut s = UploadSession::begin(10, false, false, 2, &params(HELLO_CRC, 2, 3)).unwrap();
    assert_eq!(s.accept_chunk(b"hello"), Err(ApiError::RequestEntityTooLarge));
    assert_eq!(s.accept_chunk(b"h"), Err(ApiError::RequestEntityTooLarge));
    let failure = s.finish().err().unwrap();
    assert_eq!(failure.error, ApiError::RequestEntityTooLarge);
    // nothing was written
    assert_eq!(failure.rewind_to, None);
}

#[test]
fn upload_failure_is_kept() {
    let mut s = UploadSession::begin(10, false, false, 0, &params(HELLO_CRC, 0, 5)).unwrap();
    assert!(s.accept_chunk(b"hel").is_ok());
    s.wrote();
    s.fail(ApiError::UploadError);
    s.fail(ApiError::InternalError);
    let failure = s.finish().err().unwrap();
    assert_eq!(failure.error, ApiError::UploadError);
    assert_eq!(failure.rewind_to, Some(0));
}

#[test]
fn empty_upload_of_empty_checksum() {
    let s = UploadSession::begin(0, false, true, 0, &params(0, 0, 0)).unwrap();
    let done = s.finish().ok().unwrap();
    assert_eq!(done.patch, FilePatch { complete: true, upload_offset: 0 });
    assert_eq!(done.mime_prefix, Some(vec![]));
}

#[test]
fn short_body_reports_declared_end() {
    // the body stops short of its declared length, but its checksum matches what came
    let mut s = UploadSession::begin(10, false, false, 2, &params(HELLO_CRC, 2, 8)).unwrap();
    assert!(s.accept_chunk(b"hello").is_ok());
    s.wrote();
    let done = s.finish().ok().unwrap();
    assert_eq!(done.patch, FilePatch { complete: true, upload_offset: 10 });
    assert!(done.mark_complete);
}

#[test]
fn failed_first_write_does_not_rewind() {
    let mut s = UploadSession::begin(10, false, false, 4, &params(HELLO_CRC, 4, 5)).unwrap();
    // the chunk is accepted, but writing it fails
    assert!(s.accept_chunk(b"hello").is_ok());
    s.fail(ApiError::InternalError);
    let failure = s.finish().err().unwrap();
    assert_eq!(failure.error, ApiError::InternalError);
    assert_eq!(failure.rewind_to, None);
}

#[test]
fn failed_later_write_rewinds() {
    let mut s = UploadSession::begin(10, false, false, 4, &params(HELLO_CRC, 4, 5)).unwrap();
    assert!(s.accept_chunk(b"he").is_ok());
    s.wrote();
    assert!(s.accept_chunk(b"llo").is_ok());
    s.fail(ApiError::InternalError);
    let failure = s.finish().err().unwrap();
    assert_eq!(failure.rewind_to, Some(4));
}

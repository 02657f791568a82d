use lantern_backend::error::ApiError;
use lantern_backend::login::{
    backup_code_texts, check_confirm_2fa, check_enable_2fa, check_login_account, check_remove_2fa, find_backup_code, hash_ad,
    hash_config, hash_memory_cost, hash_password, login_precheck, validate_2fa_token, verify_password,
    ElevationLevel, HashThreadMode, HashVariant, LenRange, MfaAttempt,
};
use lantern_backend::trim::{trim_message, TrimLimits};

fn limits() -> TrimLimits {
    TrimLimits { min_len: 1, max_len: 100, max_newlines: 5 }
}

#[test]
fn trim_collapses_newline_runs() {
    assert_eq!(trim_message(b"a\n\n\n\nb", limits()).unwrap(), b"a\n\nb".to_vec());
    assert_eq!(trim_message(b"a\n\nb", limits()).unwrap(), b"a\n\nb".to_vec());
    assert_eq!(trim_message(b"\n\n\n", limits()).unwrap(), b"\n\n".to_vec());
}

#[test]
fn trim_is_idempotent() {
    let once = trim_message(b"x\n\n\n\n\ny\n\n\nz", limits()).unwrap();
    let twice = trim_message(&once, limits()).unwrap();
    assert_eq!(once, twice);
    assert_eq!(once, b"x\n\ny\n\nz".to_vec());
}

#[test]
fn trim_limits() {
    assert_eq!(trim_message(b"", limits()).unwrap(), Vec::<u8>::new());
    let too_long = vec![b'a'; 100];
    assert_eq!(trim_message(&too_long, limits()), Err(ApiError::BadRequest));
    assert_eq!(trim_message(b"a\nb\nc\nd\ne\nf\ng", limits()), Err(ApiError::BadRequest));
    assert!(trim_message(b"a\nb\nc\nd\ne\nf", limits()).is_ok());
}

#[test]
fn two_factor_tokens() {
    assert!(validate_2fa_token("123456").is_ok());
    assert!(validate_2fa_token("ABCDEFGHJKMNP").is_ok());
    assert_eq!(validate_2fa_token("12345"), Err(ApiError::TOTPRequired));
    assert_eq!(validate_2fa_token("12a456"), Err(ApiError::TOTPRequired));
    assert_eq!(validate_2fa_token("ABCDEFGHIJKLM"), Err(ApiError::TOTPRequired));
}

#[test]
fn mfa_attempt_parse() {
    assert_eq!(MfaAttempt::parse("012345"), Ok(MfaAttempt::Token(12345)));
    assert_eq!(MfaAttempt::parse("+12345"), Ok(MfaAttempt::Token(12345)));
    assert_eq!(MfaAttempt::parse("12x456"), Err(ApiError::InvalidCredentials));
    assert_eq!(MfaAttempt::parse("Z000000000000"), Ok(MfaAttempt::Backup(248)));
    assert_eq!(MfaAttempt::parse("0000000000000"), Ok(MfaAttempt::Backup(0)));
    assert_eq!(MfaAttempt::parse("U000000000000"), Err(ApiError::InvalidCredentials));
    assert_eq!(MfaAttempt::parse("1234567"), Err(ApiError::InvalidCredentials));
    assert_eq!(MfaAttempt::from_backup_bytes(Some(vec![1, 0, 0, 0, 0, 0, 0, 1])), Ok(MfaAttempt::Backup(0x0100000000000001)));
    assert_eq!(MfaAttempt::from_backup_bytes(Some(vec![1, 2])), Err(ApiError::InvalidCredentials));
    assert_eq!(MfaAttempt::from_backup_bytes(None), Err(ApiError::InvalidCredentials));
}

#[test]
fn login_checks() {
    assert_eq!(login_precheck("short", None), Err(ApiError::InvalidCredentials));
    assert!(login_precheck("long enough", None).is_ok());
    assert_eq!(login_precheck("long enough", Some("12")), Err(ApiError::TOTPRequired));
    assert!(login_precheck("long enough", Some("123456")).is_ok());
    assert_eq!(check_login_account(ElevationLevel::System, false, true, true), Err(ApiError::NotFound));
    assert_eq!(check_login_account(ElevationLevel::Staff, false, false, true), Err(ApiError::NotFound));
    assert_eq!(check_login_account(ElevationLevel::Normal, true, false, false), Err(ApiError::Banned));
    assert_eq!(check_login_account(ElevationLevel::Normal, false, true, false), Err(ApiError::TOTPRequired));
    assert!(check_login_account(ElevationLevel::Staff, false, true, true).is_ok());
    assert!(check_login_account(ElevationLevel::Normal, false, false, false).is_ok());
}

#[test]
fn backup_codes_and_2fa_changes() {
    assert_eq!(find_backup_code(&[5, 6, 7], 6), Some(1));
    assert_eq!(find_backup_code(&[5, 6, 7], 8), None);
    let len = LenRange { start: 8, end: 64 };
    assert!(len.contains(8) && !len.contains(64) && !len.contains(7));
    assert_eq!(check_enable_2fa(len, "short", false), Err(ApiError::InvalidCredentials));
    assert_eq!(check_enable_2fa(len, "long enough", true), Err(ApiError::Conflict));
    assert!(check_enable_2fa(len, "long enough", false).is_ok());
    assert_eq!(check_confirm_2fa("12345", false), Err(ApiError::TOTPRequired));
    assert_eq!(check_confirm_2fa("123456", true), Err(ApiError::NotFound));
    assert!(check_confirm_2fa("123456", false).is_ok());
    assert_eq!(check_remove_2fa(len, "pw", "123456", ElevationLevel::Normal, true), Err(ApiError::InvalidCredentials));
    assert_eq!(check_remove_2fa(len, "long enough", "1", ElevationLevel::Normal, true), Err(ApiError::TOTPRequired));
    assert_eq!(check_remove_2fa(len, "long enough", "123456", ElevationLevel::Staff, true), Err(ApiError::Unauthorized));
    assert_eq!(check_remove_2fa(len, "long enough", "123456", ElevationLevel::Normal, false), Err(ApiError::NotFound));
    assert!(check_remove_2fa(len, "long enough", "123456", ElevationLevel::Normal, true).is_ok());
}

#[test]
fn password_hash_parameters() {
    assert_eq!(hash_memory_cost(), 8192);
    let c = hash_config();
    assert_eq!(c.variant, HashVariant::Argon2id);
    assert_eq!(c.thread_mode, HashThreadMode::Sequential);
    assert_eq!((c.mem_cost, c.time_cost, c.lanes, c.hash_length), (8192, 3, 1, 24));
    assert_eq!(hash_ad(), b"Lantern".to_vec());
}

#[test]
fn password_hash_round_trip() {
    let salt = [7u8; 16];
    let hash = hash_password("correct horse", &salt).unwrap();
    assert!(hash.starts_with("$argon2id$"));
    assert_eq!(verify_password(&hash, "correct horse"), Ok(true));
    assert_eq!(verify_password(&hash, "wrong horse"), Ok(false));
    assert!(verify_password("not a hash", "x").is_err());
}

#[test]
fn backup_codes_are_shown_in_crockford_base32() {
    let mut backups = vec![0u8; 8];
    backups.extend_from_slice(&[0xff; 8]);
    backups.extend_from_slice(&[1, 2, 3]);
    let codes = backup_code_texts(&backups);
    assert_eq!(codes, vec!["0000000000000".to_string(), "ZZZZZZZZZZZZY".to_string()]);
    // each shown code reads back as a backup code
    for code in &codes {
        assert!(matches!(MfaAttempt::parse(code), Ok(MfaAttempt::Backup(_))));
    }
    assert!(backup_code_texts(&vec![]).is_empty());
}

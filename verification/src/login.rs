use vstd::prelude::*;

use crate::error::ApiError;

verus! {

use vstd::string::StringSliceAdditionalSpecFns;

/// An ASCII decimal digit.
pub open spec fn is_digit(c: u8) -> bool {
    48u8 <= c <= 57u8
}

/// A character of the Crockford base32 alphabet `0123456789ABCDEFGHJKMNPQRSTVWXYZ`.
pub open spec fn is_crockford(c: u8) -> bool {
    is_digit(c) || (65u8 <= c <= 90u8 && c != 73u8 && c != 76u8 && c != 79u8 && c != 85u8)
}

/// A well-formed 2FA token: six decimal digits (a TOTP code) or thirteen characters of the
/// Crockford base32 alphabet (a backup code).
pub open spec fn valid_2fa_token(t: Seq<u8>) -> bool {
    ||| (t.len() == 6 && forall|i: int| 0 <= i < 6 ==> is_digit(#[trigger] t[i]))
    ||| (t.len() == 13 && forall|i: int| 0 <= i < 13 ==> is_crockford(#[trigger] t[i]))
}

fn all_bytes_digits(b: &[u8]) -> (ok: bool)
    ensures
        ok == forall|i: int| 0 <= i < b@.len() ==> is_digit(#[trigger] b@[i]),
{
    let mut i: usize = 0;
    while i < b.len()
        invariant
            i <= b.len(),
            forall|j: int| 0 <= j < i ==> is_digit(#[trigger] b@[j]),
        decreases b.len() - i,
    {
        if !(48u8 <= b[i] && b[i] <= 57u8) {
            return false;
        }
        i = i + 1;
    }
    true
}

fn all_bytes_crockford(b: &[u8]) -> (ok: bool)
    ensures
        ok == forall|i: int| 0 <= i < b@.len() ==> is_crockford(#[trigger] b@[i]),
{
    let mut i: usize = 0;
    while i < b.len()
        invariant
            i <= b.len(),
            forall|j: int| 0 <= j < i ==> is_crockford(#[trigger] b@[j]),
        decreases b.len() - i,
    {
        let c = b[i];
        let ok = (48u8 <= c && c <= 57u8) || (65u8 <= c && c <= 90u8 && c != 73u8 && c != 76u8
            && c != 79u8 && c != 85u8);
        if !ok {
            return false;
        }
        i = i + 1;
    }
    true
}

/// Early validation of a 2FA token, before any work is done on it: `TOTPRequired` unless it
/// is six digits or thirteen Crockford base32 characters.
pub fn validate_2fa_token(token: &str) -> (res: Result<(), ApiError>)
    ensures
        valid_2fa_token(token.spec_bytes()) ==> res is Ok,
        !valid_2fa_token(token.spec_bytes()) ==> res == Err::<(), ApiError>(ApiError::TOTPRequired),
{
    let bytes = token.as_bytes();
    let len = bytes.len();
    if len == 6 {
        if !all_bytes_digits(bytes) {
            return Err(ApiError::TOTPRequired);
        }
    } else if len == 13 {
        if !all_bytes_crockford(bytes) {
            return Err(ApiError::TOTPRequired);
        }
    } else {
        return Err(ApiError::TOTPRequired);
    }
    Ok(())
}

/// The value of a sequence of decimal digits.
pub open spec fn digits_value(s: Seq<u8>) -> int
    decreases s.len(),
{
    if s.len() == 0 {
        0
    } else {
        digits_value(s.drop_last()) * 10 + (s.last() - 48)
    }
}

/// The bytes of `s` after an optional leading `+`.
pub open spec fn unsigned_digits(s: Seq<u8>) -> Seq<u8> {
    if s.len() > 0 && s[0] == 43u8 {
        s.drop_first()
    } else {
        s
    }
}

pub open spec fn all_digits(d: Seq<u8>) -> bool {
    forall|i: int| 0 <= i < d.len() ==> is_digit(#[trigger] d[i])
}

/// What `u32::from_str` makes of the bytes `s`: an optional leading `+` followed by one or
/// more decimal digits whose value fits in a `u32`.
pub open spec fn std_parse_u32(s: Seq<u8>) -> Option<u32> {
    let d = unsigned_digits(s);
    if d.len() > 0 && all_digits(d) && digits_value(d) <= u32::MAX {
        Some(digits_value(d) as u32)
    } else {
        None
    }
}

proof fn lemma_digits_value_bound(s: Seq<u8>)
    requires
        forall|i: int| 0 <= i < s.len() ==> is_digit(#[trigger] s[i]),
    ensures
        0 <= digits_value(s),
        s.len() <= 9 ==> digits_value(s) < 1_000_000_000,
        s.len() <= 8 ==> digits_value(s) < 100_000_000,
        s.len() <= 7 ==> digits_value(s) < 10_000_000,
        s.len() <= 6 ==> digits_value(s) < 1_000_000,
        s.len() <= 5 ==> digits_value(s) < 100_000,
        s.len() <= 4 ==> digits_value(s) < 10_000,
        s.len() <= 3 ==> digits_value(s) < 1000,
        s.len() <= 2 ==> digits_value(s) < 100,
        s.len() <= 1 ==> digits_value(s) < 10,
        s.len() == 0 ==> digits_value(s) == 0,
    decreases s.len(),
{
    if s.len() > 0 {
        lemma_digits_value_bound(s.drop_last());
    }
}

/// `u32::from_str` on a string of at most nine bytes.
fn parse_u32(s: &[u8]) -> (res: Option<u32>)
    requires
        s@.len() <= 9,
    ensures
        res == std_parse_u32(s@),
{
    let n = s.len();
    let start: usize = if n > 0 && s[0] == 43u8 {
        1
    } else {
        0
    };
    let ghost d = unsigned_digits(s@);
    assert(d =~= s@.subrange(start as int, n as int));
    if start >= n {
        return None;
    }
    let mut acc: u32 = 0;
    let mut i: usize = start;
    while i < n
        invariant
            start <= i <= n,
            n == s@.len(),
            n <= 9,
            d == s@.subrange(start as int, n as int),
            d == unsigned_digits(s@),
            forall|j: int| start <= j < i ==> is_digit(#[trigger] s@[j]),
            acc == digits_value(s@.subrange(start as int, i as int)),
        decreases n - i,
    {
        let c = s[i];
        if !(48u8 <= c && c <= 57u8) {
            assert(d[i - start] == c);
            assert(!is_digit(d[i - start]));
            assert(!(forall|j: int| 0 <= j < d.len() ==> is_digit(#[trigger] d[j])));
            return None;
        }
        let ghost pre = s@.subrange(start as int, i as int);
        let ghost next = s@.subrange(start as int, i + 1);
        assert(next.drop_last() =~= pre);
        assert(forall|j: int| 0 <= j < pre.len() ==> is_digit(#[trigger] pre[j]));
        proof {
            lemma_digits_value_bound(pre);
        }
        acc = acc * 10 + (c - 48u8) as u32;
        i = i + 1;
    }
    assert(forall|j: int| 0 <= j < d.len() ==> is_digit(#[trigger] d[j]));
    proof {
        lemma_digits_value_bound(d);
    }
    Some(acc)
}

/// The little-endian value of a byte sequence.
pub open spec fn le_value(s: Seq<u8>) -> int
    decreases s.len(),
{
    if s.len() == 0 {
        0
    } else {
        s[0] + 256 * le_value(s.drop_first())
    }
}

pub open spec fn pow256(n: nat) -> int
    decreases n,
{
    if n == 0 {
        1
    } else {
        256 * pow256((n - 1) as nat)
    }
}

proof fn lemma_le_value_bound(s: Seq<u8>)
    ensures
        0 <= le_value(s) < pow256(s.len()),
    decreases s.len(),
{
    if s.len() > 0 {
        lemma_le_value_bound(s.drop_first());
        let r = le_value(s.drop_first());
        let p = pow256(s.drop_first().len());
        let b = s[0] as int;
        assert(0 <= b < 256);
        assert(b + 256 * r < 256 * p) by (nonlinear_arith)
            requires
                0 <= b < 256,
                0 <= r < p,
        ;
    }
}

/// `u64::from_le_bytes` on the bytes of `b`.
fn u64_from_le(b: &[u8]) -> (r: u64)
    requires
        b@.len() == 8,
    ensures
        r == le_value(b@),
{
    let mut acc: u64 = 0;
    let mut k: usize = 8;
    proof {
        reveal_with_fuel(pow256, 9);
        assert(b@.subrange(8, 8) =~= Seq::<u8>::empty());
    }
    while k > 0
        invariant
            k <= 8,
            b@.len() == 8,
            acc == le_value(b@.subrange(k as int, 8)),
        decreases k,
    {
        let ghost tail = b@.subrange(k as int, 8);
        let ghost next = b@.subrange(k - 1, 8);
        assert(next.drop_first() =~= tail);
        proof {
            lemma_le_value_bound(tail);
            reveal_with_fuel(pow256, 9);
            assert(pow256(tail.len()) <= pow256(7));
        }
        let byte = b[k - 1] as u64;
        assert(byte + 256 * acc < 256 * pow256(7) + 256) by (nonlinear_arith)
            requires
                byte < 256,
                acc < pow256(7),
        ;
        acc = byte + 256 * acc;
        k = k - 1;
    }
    assert(b@.subrange(0, 8) =~= b@);
    acc
}

/// What `base32::decode` with the Crockford alphabet makes of a string.
pub uninterp spec fn base32_crockford_decode(data: Seq<char>) -> Option<Seq<u8>>;

/// `base32::decode(Alphabet::Crockford, data)`. A decoding, when there is one, has five bits
/// per input character (rounded down): the crate refuses every input that holds a non-ASCII
/// character or a `=`.
#[verifier::external_body]
fn decode_crockford(data: &str) -> (res: Option<Vec<u8>>)
    ensures
        match res {
            Some(v) => base32_crockford_decode(data@) == Some(v@) && v@.len() == data@.len() * 5 / 8,
            None => base32_crockford_decode(data@) is None,
        },
{
    base32::decode(base32::Alphabet::Crockford, data)
}

/// A character of the Crockford base32 alphabet.
pub open spec fn is_crockford_char(c: char) -> bool {
    ('0' <= c <= '9') || ('A' <= c <= 'Z' && c != 'I' && c != 'L' && c != 'O' && c != 'U')
}

/// The text that `base32::encode` with the Crockford alphabet makes of bytes.
pub uninterp spec fn base32_crockford_encoded(data: Seq<u8>) -> Seq<char>;

/// `base32::encode(Alphabet::Crockford, data)`: each five bits of the bytes (the last group
/// filled up with zero bits) as one character of the Crockford alphabet, without padding.
#[verifier::external_body]
fn encode_crockford(data: &[u8]) -> (text: String)
    ensures
        text@ == base32_crockford_encoded(data@),
        text@.len() == (data@.len() * 8 + 4) / 5,
        forall|i: int| 0 <= i < text@.len() ==> is_crockford_char(#[trigger] text@[i]),
{
    base32::encode(base32::Alphabet::Crockford, data)
}

/// The backup codes shown to a user who enables 2FA: each whole eight bytes of the
/// generated codes, in Crockford base32 (thirteen characters each).
pub fn backup_code_texts(backups: &Vec<u8>) -> (codes: Vec<String>)
    ensures
        codes@.len() == backups@.len() / 8,
        forall|k: int|
            0 <= k < codes@.len() ==> (#[trigger] codes@[k])@ == base32_crockford_encoded(
                backups@.subrange(8 * k, 8 * k + 8),
            ) && codes@[k]@.len() == 13,
{
    let n = backups.len() / 8;
    let mut codes: Vec<String> = Vec::new();
    let mut k: usize = 0;
    while k < n
        invariant
            n == backups@.len() / 8,
            k <= n,
            codes@.len() == k,
            forall|m: int|
                0 <= m < k ==> (#[trigger] codes@[m])@ == base32_crockford_encoded(
                    backups@.subrange(8 * m, 8 * m + 8),
                ) && codes@[m]@.len() == 13,
        decreases n - k,
    {
        let len = backups.len();
        assert(8 * k + 8 <= len) by (nonlinear_arith)
            requires
                k < n,
                n == len / 8,
        ;
        let chunk = vstd::slice::slice_subrange(backups.as_slice(), 8 * k, 8 * k + 8);
        codes.push(encode_crockford(chunk));
        k = k + 1;
    }
    codes
}

/// A 2FA code as entered by a user.
#[derive(Debug, Clone, Copy, PartialEq, Eq, Structural)]
pub enum MfaAttempt {
    /// A 6-digit TOTP code.
    Token(u32),
    /// A 64-bit backup code.
    Backup(u64),
}

/// The backup code that the decoding of a 13-character backup code stands for.
pub open spec fn backup_attempt(decoded: Option<Seq<u8>>) -> Result<MfaAttempt, ApiError> {
    match decoded {
        Some(b) => if b.len() == 8 {
            Ok(MfaAttempt::Backup(le_value(b) as u64))
        } else {
            Err(ApiError::InvalidCredentials)
        },
        None => Err(ApiError::InvalidCredentials),
    }
}

impl MfaAttempt {
    /// Reads a backup code from its base32 decoding: eight bytes, little-endian.
    pub fn from_backup_bytes(decoded: Option<Vec<u8>>) -> (res: Result<MfaAttempt, ApiError>)
        ensures
            res == backup_attempt(
                match decoded {
                    Some(v) => Some(v@),
                    None => None,
                },
            ),
    {
        match decoded {
            Some(bytes) => {
                if bytes.len() == 8 {
                    Ok(MfaAttempt::Backup(u64_from_le(bytes.as_slice())))
                } else {
                    Err(ApiError::InvalidCredentials)
                }
            },
            None => Err(ApiError::InvalidCredentials),
        }
    }

    /// Reads a 2FA code: six bytes are a TOTP code (as `u32::from_str` reads it), thirteen
    /// are a Crockford base32 backup code of eight little-endian bytes; anything else, and
    /// any code that does not read, is `InvalidCredentials`.
    pub fn parse(token: &str) -> (res: Result<MfaAttempt, ApiError>)
        ensures
            token.spec_bytes().len() == 6 ==> res == match std_parse_u32(token.spec_bytes()) {
                Some(v) => Ok(MfaAttempt::Token(v)),
                None => Err(ApiError::InvalidCredentials),
            },
            token.spec_bytes().len() == 13 ==> res == backup_attempt(
                base32_crockford_decode(token@),
            ),
            token.spec_bytes().len() != 6 && token.spec_bytes().len() != 13 ==> res == Err::<
                MfaAttempt,
                ApiError,
            >(ApiError::InvalidCredentials),
    {
        let bytes = token.as_bytes();
        let len = bytes.len();
        if len == 6 {
            match parse_u32(bytes) {
                Some(v) => Ok(MfaAttempt::Token(v)),
                None => Err(ApiError::InvalidCredentials),
            }
        } else if len == 13 {
            MfaAttempt::from_backup_bytes(decode_crockford(token))
        } else {
            Err(ApiError::InvalidCredentials)
        }
    }
}

/// The elevation of a user account.
#[derive(Debug, Clone, Copy, PartialEq, Eq, Structural)]
pub enum ElevationLevel {
    Normal,
    Staff,
    System,
}

/// Checks on a login form before any account is looked up: a password shorter than eight
/// bytes is `InvalidCredentials`; a given 2FA token must be well-formed (`TOTPRequired`).
pub fn login_precheck(password: &str, totp: Option<&str>) -> (res: Result<(), ApiError>)
    ensures
        password.spec_bytes().len() < 8 ==> res == Err::<(), ApiError>(ApiError::InvalidCredentials),
        password.spec_bytes().len() >= 8 ==> match totp {
            Some(t) => if valid_2fa_token(t.spec_bytes()) {
                res is Ok
            } else {
                res == Err::<(), ApiError>(ApiError::TOTPRequired)
            },
            None => res is Ok,
        },
{
    if password.as_bytes().len() < 8 {
        return Err(ApiError::InvalidCredentials);
    }
    match totp {
        Some(token) => validate_2fa_token(token),
        None => Ok(()),
    }
}

/// Checks on the account a login resolved to: the system user cannot log in and staff
/// cannot without 2FA (both pretend the account does not exist), a banned user is refused,
/// and an account with 2FA needs a 2FA token.
pub fn check_login_account(elevation: ElevationLevel, banned: bool, has_mfa: bool, has_totp: bool) -> (res:
    Result<(), ApiError>)
    ensures
        res == (if elevation == ElevationLevel::System || (elevation == ElevationLevel::Staff
            && !has_mfa) {
            Err(ApiError::NotFound)
        } else if banned {
            Err(ApiError::Banned)
        } else if has_mfa && !has_totp {
            Err(ApiError::TOTPRequired)
        } else {
            Ok(())
        }),
{
    match elevation {
        ElevationLevel::System => return Err(ApiError::NotFound),
        ElevationLevel::Staff => {
            if !has_mfa {
                return Err(ApiError::NotFound);
            }
        },
        ElevationLevel::Normal => {},
    }
    if banned {
        return Err(ApiError::Banned);
    }
    if has_mfa && !has_totp {
        return Err(ApiError::TOTPRequired);
    }
    Ok(())
}

/// The position of the first backup code equal to `code`.
pub fn find_backup_code(backups: &[u64], code: u64) -> (idx: Option<usize>)
    ensures
        match idx {
            Some(i) => i < backups@.len() && backups@[i as int] == code && forall|j: int|
                0 <= j < i ==> backups@[j] != code,
            None => forall|j: int| 0 <= j < backups@.len() ==> backups@[j] != code,
        },
{
    let mut i: usize = 0;
    while i < backups.len()
        invariant
            i <= backups@.len(),
            forall|j: int| 0 <= j < i ==> backups@[j] != code,
        decreases backups.len() - i,
    {
        if backups[i] == code {
            return Some(i);
        }
        i = i + 1;
    }
    None
}

/// Password length bounds (a half-open range of byte lengths) from the server configuration.
#[derive(Debug, Clone, Copy, PartialEq, Eq, Structural)]
pub struct LenRange {
    pub start: usize,
    pub end: usize,
}

impl LenRange {
    pub fn contains(&self, len: usize) -> (b: bool)
        ensures
            b == (self.start <= len < self.end),
    {
        self.start <= len && len < self.end
    }
}

/// Checks on a request to remove 2FA, before the password is verified: the password must
/// have an allowed length (`InvalidCredentials`), the token must be well-formed
/// (`TOTPRequired`), staff and system accounts may not remove 2FA (`Unauthorized`), and the
/// account must have 2FA (`NotFound`).
pub fn check_remove_2fa(
    password_len: LenRange,
    password: &str,
    totp: &str,
    elevation: ElevationLevel,
    has_mfa: bool,
) -> (res: Result<(), ApiError>)
    ensures
        res == (if !(password_len.start <= password.spec_bytes().len() < password_len.end) {
            Err(ApiError::InvalidCredentials)
        } else if !valid_2fa_token(totp.spec_bytes()) {
            Err(ApiError::TOTPRequired)
        } else if elevation == ElevationLevel::System || elevation == ElevationLevel::Staff {
            Err(ApiError::Unauthorized)
        } else if !has_mfa {
            Err(ApiError::NotFound)
        } else {
            Ok(())
        }),
{
    if !password_len.contains(password.as_bytes().len()) {
        return Err(ApiError::InvalidCredentials);
    }
    if let Err(e) = validate_2fa_token(totp) {
        return Err(e);
    }
    match elevation {
        ElevationLevel::System | ElevationLevel::Staff => return Err(ApiError::Unauthorized),
        ElevationLevel::Normal => {},
    }
    if !has_mfa {
        return Err(ApiError::NotFound);
    }
    Ok(())
}

/// Checks on a request to confirm pending 2FA: the code must be six bytes long
/// (`TOTPRequired`), and the pending setup must not have expired (`NotFound`).
pub fn check_confirm_2fa(totp: &str, expired: bool) -> (res: Result<(), ApiError>)
    ensures
        res == (if totp.spec_bytes().len() != 6 {
            Err(ApiError::TOTPRequired)
        } else if expired {
            Err(ApiError::NotFound)
        } else {
            Ok(())
        }),
{
    if totp.as_bytes().len() != 6 {
        return Err(ApiError::TOTPRequired);
    }
    if expired {
        return Err(ApiError::NotFound);
    }
    Ok(())
}

/// Checks on a request to enable 2FA: the password must have an allowed length
/// (`InvalidCredentials`) and the account must not have 2FA already (`Conflict`).
pub fn check_enable_2fa(password_len: LenRange, password: &str, has_mfa: bool) -> (res: Result<(), ApiError>)
    ensures
        res == (if !(password_len.start <= password.spec_bytes().len() < password_len.end) {
            Err(ApiError::InvalidCredentials)
        } else if has_mfa {
            Err(ApiError::Conflict)
        } else {
            Ok(())
        }),
{
    if !password_len.contains(password.as_bytes().len()) {
        return Err(ApiError::InvalidCredentials);
    }
    if has_mfa {
        return Err(ApiError::Conflict);
    }
    Ok(())
}

/// Returns the amount of memory the argon2 hash will use, in kilobytes
pub fn hash_memory_cost() -> (kb: u32)
    ensures
        kb == 8 * 1024,
{
    8 * 1024  // 8 MiB

}

/// The argon2 variants.
#[derive(Debug, Clone, Copy, PartialEq, Eq, Structural)]
pub enum HashVariant {
    Argon2d,
    Argon2i,
    Argon2id,
}

/// How argon2 schedules its lanes.
#[derive(Debug, Clone, Copy, PartialEq, Eq, Structural)]
pub enum HashThreadMode {
    Sequential,
}

/// The argon2 parameters of password hashes.
#[derive(Debug, Clone, Copy, PartialEq, Eq, Structural)]
pub struct HashConfig {
    pub variant: HashVariant,
    pub thread_mode: HashThreadMode,
    pub mem_cost: u32,
    pub time_cost: u32,
    pub lanes: u32,
    pub hash_length: u32,
}

/// The parameters of password hashes: Argon2id, sequential, one lane, three passes,
/// 8 MiB of memory and a 24-byte hash.
pub open spec fn password_hash_config() -> HashConfig {
    HashConfig {
        variant: HashVariant::Argon2id,
        thread_mode: HashThreadMode::Sequential,
        mem_cost: 8192u32,
        time_cost: 3,
        lanes: 1,
        hash_length: 24,
    }
}

/// The parameters of password hashes (with `hash_ad()` as associated data).
pub fn hash_config() -> (c: HashConfig)
    ensures
        c == password_hash_config(),
{
    HashConfig {
        variant: HashVariant::Argon2id,
        thread_mode: HashThreadMode::Sequential,
        mem_cost: hash_memory_cost(),
        time_cost: 3,
        lanes: 1,
        hash_length: 24,
    }
}

/// The bytes of `Lantern`.
pub open spec fn hash_ad_bytes() -> Seq<u8> {
    seq![76u8, 97u8, 110u8, 116u8, 101u8, 114u8, 110u8]
}

/// The associated data of password hashes: the bytes of `Lantern`.
pub fn hash_ad() -> (ad: Vec<u8>)
    ensures
        ad@ == hash_ad_bytes(),
{
    vec![76u8, 97u8, 110u8, 116u8, 101u8, 114u8, 110u8]
}

/// What `argon2::verify_encoded_ext` answers for an encoded hash, a password, a secret and
/// associated data: `Some(matches)`, or `None` where it fails (such as a malformed hash).
pub uninterp spec fn argon2_verify_outcome(
    encoded: Seq<char>,
    pwd: Seq<u8>,
    secret: Seq<u8>,
    ad: Seq<u8>,
) -> Option<bool>;

/// `argon2::verify_encoded_ext`: whether `pwd` matches the encoded hash, under the given
/// secret and associated data; its result is named by `argon2_verify_outcome`. As the
/// crate's documentation shows, a password matches a hash that `argon2::hash_encoded` made
/// of it with the same associated data and no secret (the parameters are read back from the
/// encoded hash).
#[verifier::external_body]
fn argon2_verify_encoded_ext(encoded: &str, pwd: &[u8], secret: &[u8], ad: &[u8]) -> (res: Result<
    bool,
    argon2::Error,
>)
    ensures
        match res {
            Ok(b) => argon2_verify_outcome(encoded@, pwd@, secret@, ad@) == Some(b),
            Err(_) => argon2_verify_outcome(encoded@, pwd@, secret@, ad@) is None,
        },
        forall|salt: Seq<u8>, config: HashConfig|
            secret@.len() == 0 && #[trigger] argon2_hash_outcome(pwd@, salt, ad@, config) == Some(encoded@)
                ==> (res matches Ok(true)),
{
    argon2::verify_encoded_ext(encoded, pwd, secret, ad)
}

/// What `argon2::hash_encoded` yields for a password, a salt, associated data and the
/// remaining parameters (no secret, the default argon2 version): `Some(encoded hash)`, or
/// `None` where it fails.
pub uninterp spec fn argon2_hash_outcome(
    pwd: Seq<u8>,
    salt: Seq<u8>,
    ad: Seq<u8>,
    config: HashConfig,
) -> Option<Seq<char>>;

/// `argon2::hash_encoded` with an `argon2::Config` built from `config` and `ad`; its result
/// is named by `argon2_hash_outcome`.
#[verifier::external_body]
fn argon2_hash_encoded(pwd: &[u8], salt: &[u8], ad: &[u8], config: HashConfig) -> (res: Result<
    String,
    argon2::Error,
>)
    ensures
        match res {
            Ok(h) => argon2_hash_outcome(pwd@, salt@, ad@, config) == Some(h@),
            Err(_) => argon2_hash_outcome(pwd@, salt@, ad@, config) is None,
        },
{
    let mut c = argon2::Config::default();
    c.ad = ad;
    c.variant = match config.variant {
        HashVariant::Argon2d => argon2::Variant::Argon2d,
        HashVariant::Argon2i => argon2::Variant::Argon2i,
        HashVariant::Argon2id => argon2::Variant::Argon2id,
    };
    c.thread_mode = match config.thread_mode {
        HashThreadMode::Sequential => argon2::ThreadMode::Sequential,
    };
    c.mem_cost = config.mem_cost;
    c.time_cost = config.time_cost;
    c.lanes = config.lanes;
    c.hash_length = config.hash_length;
    argon2::hash_encoded(pwd, salt, &c)
}

/// Verifies `password` against a stored password hash, with the associated data of
/// `hash_config` and no secret. A hash that cannot be checked is an `InternalError`. A
/// password always verifies against a hash that `hash_password` made of it.
pub fn verify_password(passhash: &str, password: &str) -> (res: Result<bool, ApiError>)
    ensures
        match argon2_verify_outcome(
            passhash@,
            password.spec_bytes(),
            Seq::<u8>::empty(),
            hash_ad_bytes(),
        ) {
            Some(b) => res == Ok::<bool, ApiError>(b),
            None => res == Err::<bool, ApiError>(ApiError::InternalError),
        },
        (exists|salt: Seq<u8>|
            #[trigger] argon2_hash_outcome(
                password.spec_bytes(),
                salt,
                hash_ad_bytes(),
                password_hash_config(),
            ) == Some(passhash@)) ==> res == Ok::<bool, ApiError>(true),
{
    let ad = hash_ad();
    let secret: Vec<u8> = Vec::new();
    match argon2_verify_encoded_ext(passhash, password.as_bytes(), secret.as_slice(), ad.as_slice()) {
        Ok(b) => Ok(b),
        Err(_) => Err(ApiError::InternalError),
    }
}

/// Hashes a new password with a 16-byte salt under `hash_config`. A failure of the hash is
/// an `InternalError`.
pub fn hash_password(password: &str, salt: &[u8; 16]) -> (res: Result<String, ApiError>)
    ensures
        match argon2_hash_outcome(
            password.spec_bytes(),
            salt@,
            hash_ad_bytes(),
            password_hash_config(),
        ) {
            Some(h) => res matches Ok(s) && s@ == h,
            None => res == Err::<String, ApiError>(ApiError::InternalError),
        },
{
    let ad = hash_ad();
    let config = hash_config();
    match argon2_hash_encoded(password.as_bytes(), salt.as_slice(), ad.as_slice(), config) {
        Ok(h) => Ok(h),
        Err(_) => Err(ApiError::InternalError),
    }
}

/// A random 64-bit value.
///
/// Trusted: calls `rand::random::<u64>()`; the value depends on chance, so nothing is stated
/// of it.
#[verifier::external_body]
fn random_u64() -> u64 {
    rand::random::<u64>()
}

/// Uses up a backup code: the first backup equal to `code` is replaced with a random value
/// other than `code`, so that it cannot be used again there. A code that is not a backup is `InvalidCredentials`, and
/// changes nothing.
pub fn retire_backup_code(backups: &mut Vec<u64>, code: u64) -> (res: Result<usize, ApiError>)
    ensures
        res matches Ok(idx) ==> {
            &&& idx < old(backups)@.len()
            &&& old(backups)@[idx as int] == code
            &&& forall|j: int| 0 <= j < idx ==> old(backups)@[j] != code
            &&& final(backups)@.len() == old(backups)@.len()
            &&& forall|j: int| 0 <= j < old(backups)@.len() && j != idx ==> final(backups)@[j] == old(backups)@[j]
            &&& final(backups)@[idx as int] != code
        },
        res is Err ==> {
            &&& res == Err::<usize, ApiError>(ApiError::InvalidCredentials)
            &&& final(backups)@ == old(backups)@
            &&& forall|j: int| 0 <= j < old(backups)@.len() ==> old(backups)@[j] != code
        },
{
    match find_backup_code(backups.as_slice(), code) {
        None => Err(ApiError::InvalidCredentials),
        Some(idx) => {
            let drawn = random_u64();
            // a draw that happens to be the used code would let it be used again
            let fresh = if drawn == code {
                drawn.wrapping_add(1)
            } else {
                drawn
            };
            backups.set(idx, fresh);
            Ok(idx)
        },
    }
}

} // verus!

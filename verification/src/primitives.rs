//! The outside functions that the library calls, each behind one wrapper.
//!
//! Nothing in this module is proved: every contract here is a claim about a function of
//! another crate (or of std), and the rest of the library is proved from these claims.
use aes_gcm::aead::{Aead, KeyInit, OsRng};
use aes_gcm::{Aes256Gcm, Nonce};
use argon2::password_hash::{PasswordHasher, SaltString};
use argon2::Argon2;
use base64::engine::general_purpose::STANDARD;
use base64::Engine;
use hmac::{Hmac, Mac};
use rand::RngCore;
use sha2::{Digest, Sha256};
use vstd::prelude::*;
use vstd::utf8::*;
use zeroize::Zeroize;

verus! {

/// The longest password, and the longest salt, in bytes that Argon2 takes.
pub open spec fn argon2_limit() -> int {
    0xFFFF_FFFF
}

/// The longest plaintext, in bytes, that AES-256-GCM takes.
pub open spec fn aes_limit() -> int {
    0x10_0000_0000
}

/// The length of the padded base64 text of `n` bytes.
pub open spec fn base64_len(n: nat) -> nat {
    (n + 2) / 3 * 4
}

/// The characters that a salt text may hold.
pub open spec fn salt_char(c: char) -> bool {
    ||| 'a' <= c <= 'z'
    ||| 'A' <= c <= 'Z'
    ||| '0' <= c <= '9'
    ||| c == '/'
    ||| c == '+'
    ||| c == '.'
    ||| c == '-'
}

/// `i` is the position of the first character of `s` that a salt text may not hold.
pub open spec fn first_bad_salt_char(s: Seq<char>, i: int) -> bool {
    &&& 0 <= i < s.len()
    &&& !salt_char(s[i])
    &&& forall|j: int| 0 <= j < i ==> salt_char(#[trigger] s[j])
}

/// Why `s` is no salt text, in the words of the password hashing crate; `None` where it
/// is one: 4 to 64 bytes long, made of permitted characters.
pub open spec fn salt_fault(s: Seq<char>) -> Option<Seq<char>> {
    if encode_utf8(s).len() < 4 {
        Some("salt invalid: value to short"@)
    } else if encode_utf8(s).len() > 64 {
        Some("salt invalid: value to long"@)
    } else if exists|i: int| first_bad_salt_char(s, i) {
        let i = choose|i: int| first_bad_salt_char(s, i);
        Some("salt invalid: contains invalid character: '"@ + seq![s[i]] + "'"@)
    } else {
        None
    }
}

/// The six bits that a character stands for in the standard base64 alphabet; `None` where
/// it is not in the alphabet.
pub open spec fn six_bits(c: char) -> Option<int> {
    if 'A' <= c <= 'Z' {
        Some(c as int - 'A' as int)
    } else if 'a' <= c <= 'z' {
        Some(c as int - 'a' as int + 26)
    } else if '0' <= c <= '9' {
        Some(c as int - '0' as int + 52)
    } else if c == '+' {
        Some(62)
    } else if c == '/' {
        Some(63)
    } else {
        None
    }
}

/// The character that stands for six bits in the standard base64 alphabet.
pub open spec fn base64_char(bits: int) -> char {
    if bits < 26 {
        (65 + bits) as char
    } else if bits < 52 {
        (71 + bits) as char
    } else if bits < 62 {
        (bits - 4) as char
    } else if bits == 62 {
        '+'
    } else {
        '/'
    }
}

/// The padded base64 text of `data`, in the standard alphabet: four characters for every
/// three bytes, and `=` for those characters of the last four that carry no bits.
pub open spec fn base64_text(data: Seq<u8>) -> Seq<char>
    decreases data.len(),
{
    if data.len() == 0 {
        Seq::empty()
    } else {
        let a = data[0] as int;
        let b = if data.len() > 1 {
            data[1] as int
        } else {
            0
        };
        let c = if data.len() > 2 {
            data[2] as int
        } else {
            0
        };
        let third = if data.len() > 1 {
            base64_char(b % 16 * 4 + c / 64)
        } else {
            '='
        };
        let fourth = if data.len() > 2 {
            base64_char(c % 64)
        } else {
            '='
        };
        let rest = if data.len() > 3 {
            data.skip(3)
        } else {
            Seq::empty()
        };
        seq![base64_char(a / 4), base64_char(a % 4 * 16 + b / 16), third, fourth] + base64_text(
            rest,
        )
    }
}

/// Whether `s` is a base64 text without padding: made of the alphabet, of a length that a
/// number of whole bytes has, and with zeros for the bits behind the last byte.
pub open spec fn unpadded_base64(s: Seq<char>) -> bool {
    &&& forall|i: int| 0 <= i < s.len() ==> (six_bits(#[trigger] s[i]) is Some)
    &&& s.len() % 4 != 1
    &&& s.len() % 4 == 2 ==> six_bits(s.last())->0 % 16 == 0
    &&& s.len() % 4 == 3 ==> six_bits(s.last())->0 % 4 == 0
}

/// The number of bytes that an unpadded base64 text of `n` characters stands for.
pub open spec fn unpadded_bytes(n: nat) -> nat {
    n * 3 / 4
}

/// Why `hash_password` of Argon2 refuses a password of this length in bytes with a salt
/// text, in the words of the password hashing crate; `None` where it takes them.
pub open spec fn argon2_hash_fault(password_len: nat, salt: Seq<char>) -> Option<Seq<char>> {
    if !unpadded_base64(salt) {
        Some("invalid Base64 encoding"@)
    } else if password_len > argon2_limit() {
        Some("invalid password"@)
    } else if unpadded_bytes(salt.len()) < 8 {
        Some("salt invalid: value to short"@)
    } else {
        None
    }
}

/// Why Argon2 refuses a password and a salt of these lengths in bytes, in its own words;
/// `None` where it takes them.
pub open spec fn argon2_fault(password_len: nat, salt_len: nat) -> Option<Seq<char>> {
    if password_len > argon2_limit() {
        Some("password is too long"@)
    } else if salt_len < 8 {
        Some("salt is too short"@)
    } else if salt_len > argon2_limit() {
        Some("salt is too long"@)
    } else {
        None
    }
}

/// The 32 bytes that `Argon2::default().hash_password_into` derives.
pub uninterp spec fn argon2_key(password: Seq<u8>, salt: Seq<u8>) -> Seq<u8>;

/// The ciphertext, with its tag behind it, that AES-256-GCM makes.
pub uninterp spec fn aes_seal(key: Seq<u8>, nonce: Seq<u8>, plaintext: Seq<u8>) -> Seq<u8>;

/// The plaintext that AES-256-GCM finds in a ciphertext with its tag behind it; `None`
/// where it refuses the ciphertext.
pub uninterp spec fn aes_open(key: Seq<u8>, nonce: Seq<u8>, ciphertext: Seq<u8>) -> Option<
    Seq<u8>,
>;

/// The HMAC-SHA256 code of `data` under `key`.
pub uninterp spec fn hmac_sha256(key: Seq<u8>, data: Seq<u8>) -> Seq<u8>;

/// The SHA-256 digest of `data`.
pub uninterp spec fn sha256(data: Seq<u8>) -> Seq<u8>;

/// The bytes that a padded base64 text stands for, or the text of the decoder's error.
pub uninterp spec fn base64_bytes(text: Seq<char>) -> Result<Seq<u8>, Seq<char>>;

/// Whether a character has the Unicode property White_Space.
pub open spec fn white_space(c: char) -> bool {
    ||| '\u{9}' <= c <= '\u{d}'
    ||| c == '\u{20}'
    ||| c == '\u{85}'
    ||| c == '\u{a0}'
    ||| c == '\u{1680}'
    ||| '\u{2000}' <= c <= '\u{200a}'
    ||| c == '\u{2028}'
    ||| c == '\u{2029}'
    ||| c == '\u{202f}'
    ||| c == '\u{205f}'
    ||| c == '\u{3000}'
}

/// Calls `SaltString::generate` with the system's random numbers. Claimed of every
/// outcome: it is the unpadded base64 text of 16 bytes, so 22 letters, digits, `+` or
/// `/`. Which of these texts comes out is left to chance.
#[verifier::external_body]
pub(crate) fn random_salt() -> (salt: String)
    ensures
        salt@.len() == 22,
        unpadded_base64(salt@),
{
    SaltString::generate(&mut OsRng).to_string()
}

/// Calls `OsRng.fill_bytes`: twelve random bytes, of which nothing is claimed.
#[verifier::external_body]
pub(crate) fn random_nonce() -> [u8; 12] {
    let mut nonce = [0u8; 12];
    OsRng.fill_bytes(&mut nonce);
    nonce
}

/// Calls `SaltString::from_b64`. Claimed: it accepts exactly the salt texts, keeps the
/// text as it is, and otherwise reports the fault.
#[verifier::external_body]
pub(crate) fn salt_from_b64(text: &str) -> (salt: Result<String, String>)
    ensures
        match salt {
            Ok(s) => s@ == text@ && salt_fault(text@) is None,
            Err(e) => salt_fault(text@) == Some(e@),
        },
{
    match SaltString::from_b64(text) {
        Ok(salt) => Ok(salt.as_str().to_string()),
        Err(e) => Err(e.to_string()),
    }
}

/// Calls `Argon2::default().hash_password` and drops the hash. Claimed: it fails exactly
/// on a salt text that is no unpadded base64 text or stands for fewer than 8 bytes, and on
/// a password that is too long, with the error that belongs to each.
#[verifier::external_body]
pub(crate) fn hash_password(password: &str, salt: &str) -> (checked: Result<(), String>)
    requires
        salt_fault(salt@) is None,
    ensures
        match checked {
            Ok(()) => argon2_hash_fault(encode_utf8(password@).len(), salt@) is None,
            Err(e) => argon2_hash_fault(encode_utf8(password@).len(), salt@) == Some(e@),
        },
{
    let salt = SaltString::from_b64(salt).map_err(|e| e.to_string())?;
    match Argon2::default().hash_password(password.as_bytes(), &salt) {
        Ok(_) => Ok(()),
        Err(e) => Err(e.to_string()),
    }
}

/// Calls `Argon2::default().hash_password_into` with a 32-byte output. Claimed: it fails
/// exactly on a password that is too long or a salt that is too short or too long, and
/// otherwise derives a key that depends on the password and the salt alone.
#[verifier::external_body]
pub(crate) fn hash_password_into(password: &[u8], salt: &[u8]) -> (key: Result<[u8; 32], String>)
    ensures
        match key {
            Ok(k) => k@ == argon2_key(password@, salt@) && argon2_fault(
                password@.len(),
                salt@.len(),
            ) is None,
            Err(e) => argon2_fault(password@.len(), salt@.len()) == Some(e@),
        },
{
    let mut key = [0u8; 32];
    match Argon2::default().hash_password_into(password, salt, &mut key) {
        Ok(()) => Ok(key),
        Err(e) => Err(e.to_string()),
    }
}

/// Calls `Aes256Gcm::encrypt`. Claimed: it fails exactly on a plaintext of more than
/// 2^36 bytes; otherwise the ciphertext depends on the arguments alone, is 16 bytes
/// longer than the plaintext, and `Aes256Gcm::decrypt` gives the plaintext back from it.
/// Under any other nonce of twelve bytes `decrypt` refuses it: the 16-byte tag is a hash
/// of the ciphertext, combined by exclusive or with the encryption of the nonce as one AES
/// block, and AES under one key encrypts different blocks differently.
#[verifier::external_body]
pub(crate) fn aes_encrypt(key: &[u8; 32], nonce: &[u8; 12], plaintext: &[u8]) -> (sealed: Result<
    Vec<u8>,
    String,
>)
    requires
        plaintext@.len() + 16 <= isize::MAX,
    ensures
        match sealed {
            Ok(c) => {
                &&& plaintext@.len() <= aes_limit()
                &&& c@ == aes_seal(key@, nonce@, plaintext@)
                &&& c@.len() == plaintext@.len() + 16
                &&& aes_open(key@, nonce@, c@) == Some(plaintext@)
                &&& forall|other: Seq<u8>|
                    other.len() == 12 && other != nonce@ ==> (#[trigger] aes_open(
                        key@,
                        other,
                        c@,
                    )) is None
            },
            Err(e) => plaintext@.len() > aes_limit() && e@ == "aead::Error"@,
        },
{
    let cipher = Aes256Gcm::new_from_slice(key).map_err(|e| e.to_string())?;
    match cipher.encrypt(Nonce::from_slice(nonce), plaintext) {
        Ok(c) => Ok(c),
        Err(e) => Err(e.to_string()),
    }
}

/// Calls `Aes256Gcm::decrypt`. Claimed: whether it accepts the ciphertext, and the
/// plaintext that it finds, depend on the arguments alone; the plaintext is 16 bytes
/// shorter than the ciphertext; the error is always the same.
#[verifier::external_body]
pub(crate) fn aes_decrypt(key: &[u8; 32], nonce: &[u8; 12], ciphertext: &[u8]) -> (opened: Result<
    Vec<u8>,
    String,
>)
    ensures
        match opened {
            Ok(p) => aes_open(key@, nonce@, ciphertext@) == Some(p@) && p@.len() + 16
                == ciphertext@.len(),
            Err(e) => aes_open(key@, nonce@, ciphertext@) is None && e@ == "aead::Error"@,
        },
{
    let cipher = Aes256Gcm::new_from_slice(key).map_err(|e| e.to_string())?;
    match cipher.decrypt(Nonce::from_slice(nonce), ciphertext) {
        Ok(p) => Ok(p),
        Err(e) => Err(e.to_string()),
    }
}

/// Calls `Hmac::<Sha256>::new_from_slice`, `update` and `finalize`. Claimed: a key of any
/// length is accepted, and the code is 32 bytes that depend on the arguments alone.
#[verifier::external_body]
pub(crate) fn hmac_code(key: &[u8], data: &[u8]) -> (code: Result<Vec<u8>, String>)
    ensures
        code is Ok,
        code->Ok_0@ == hmac_sha256(key@, data@),
        code->Ok_0@.len() == 32,
{
    let mut mac = <Hmac<Sha256> as Mac>::new_from_slice(key).map_err(|e| e.to_string())?;
    mac.update(data);
    Ok(mac.finalize().into_bytes().to_vec())
}

/// Calls `Hmac::<Sha256>::new_from_slice`, `update` and `verify_slice`. Claimed: a key of
/// any length is accepted, and a code passes exactly if it is the one that `finalize`
/// gives; a code that does not have 32 bytes never passes.
#[verifier::external_body]
pub(crate) fn hmac_verify(key: &[u8], data: &[u8], code: &[u8]) -> (passed: Result<bool, String>)
    ensures
        passed is Ok,
        passed->Ok_0 == (code@ == hmac_sha256(key@, data@)),
        passed->Ok_0 ==> code@.len() == 32,
{
    let mut mac = <Hmac<Sha256> as Mac>::new_from_slice(key).map_err(|e| e.to_string())?;
    mac.update(data);
    Ok(mac.verify_slice(code).is_ok())
}

/// Calls `Sha256::digest`. Claimed: 32 bytes that depend on `data` alone.
#[verifier::external_body]
pub(crate) fn sha256_digest(data: &[u8]) -> (digest: Vec<u8>)
    ensures
        digest@ == sha256(data@),
        digest@.len() == 32,
{
    Sha256::digest(data).to_vec()
}

/// Calls `encode` of the standard base64 engine. Claimed: it gives the padded base64 text
/// of `data`, and the same engine's `decode` gives `data` back from it.
#[verifier::external_body]
pub(crate) fn base64_encode(data: &[u8]) -> (text: String)
    requires
        base64_len(data@.len()) <= isize::MAX,
    ensures
        text@ == base64_text(data@),
        (base64_bytes(text@) == Ok::<Seq<u8>, Seq<char>>(data@)),
{
    STANDARD.encode(data)
}

/// Calls `decode` of the standard base64 engine. Claimed: it accepts exactly the padded
/// base64 texts, with canonical padding and zeros for the bits behind the last byte, and
/// gives the bytes that they stand for; the text of the error depends on `text` alone.
#[verifier::external_body]
pub(crate) fn base64_decode(text: &str) -> (data: Result<Vec<u8>, String>)
    ensures
        match data {
            Ok(d) => {
                &&& base64_bytes(text@) == Ok::<Seq<u8>, Seq<char>>(d@)
                &&& text@ == base64_text(d@)
            },
            Err(e) => {
                &&& base64_bytes(text@) == Err::<Seq<u8>, Seq<char>>(e@)
                &&& forall|d: Seq<u8>| #[trigger] base64_text(d) != text@
            },
        },
{
    match STANDARD.decode(text) {
        Ok(data) => Ok(data),
        Err(e) => Err(e.to_string()),
    }
}

/// Calls `zeroize` on a key. Claimed: every byte is zero afterwards.
#[verifier::external_body]
pub(crate) fn wipe(key: &mut [u8; 32])
    ensures
        final(key)@ == Seq::new(32, |i: int| 0u8),
{
    key.zeroize();
}

/// The error type of std's file operations, carried as it is.
#[verifier::external_type_specification]
#[verifier::external_body]
pub struct ExIoError(std::io::Error);

/// The error type of the JSON crate, carried as it is.
#[verifier::external_type_specification]
#[verifier::external_body]
pub struct ExJsonError(serde_json::Error);

/// Calls `to_string` on an error of std's file operations. The words come from the
/// operating system, so nothing is claimed of them.
#[verifier::external_body]
pub(crate) fn io_error_text(error: &std::io::Error) -> String {
    error.to_string()
}

/// Calls `to_string` on an error of the JSON crate. The error is opaque here, so nothing
/// is claimed of its words.
#[verifier::external_body]
pub(crate) fn json_error_text(error: &serde_json::Error) -> String {
    error.to_string()
}

/// `char::is_whitespace`. Claimed: it tells whether the character has the property
/// White_Space, which the Unicode Character Database gives to the characters listed in
/// `white_space`.
pub assume_specification[ char::is_whitespace ](c: char) -> (b: bool)
    ensures
        b == white_space(c),
;

/// `String::push`. Claimed: it appends the character.
pub assume_specification[ String::push ](s: &mut String, c: char)
    ensures
        final(s)@ == old(s)@.push(c),
;

} // verus!

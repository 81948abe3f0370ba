//! Encryption and decryption of a file's contents under a password.
//!
//! A key is derived from the password and a random salt with Argon2id. The contents are
//! encrypted with AES-256-GCM under a random nonce, and the ciphertext is signed with
//! HMAC-SHA256 under the same key. A payload carries nonce, ciphertext, salt and
//! signature as text.
use crate::error::{CryptoError, ErrorView};
use crate::primitives;
use vstd::prelude::*;
use vstd::utf8::*;

verus! {

/// An encrypted file, with every binary part written in base64.
pub struct EncryptedPayload {
    /// The nonce that the contents were encrypted under.
    pub nonce: String,
    /// The ciphertext with its tag behind it.
    pub ciphertext: String,
    /// The salt that the key was derived with.
    pub salt: String,
    /// The signature of the ciphertext.
    pub signature: String,
    /// The name that the file had.
    pub original_filename: String,
}

/// An `EncryptedPayload` with its texts taken as sequences of characters.
#[verifier::ext_equal]
pub struct PayloadView {
    pub nonce: Seq<char>,
    pub ciphertext: Seq<char>,
    pub salt: Seq<char>,
    pub signature: Seq<char>,
    pub original_filename: Seq<char>,
}

impl View for EncryptedPayload {
    type V = PayloadView;

    open spec fn view(&self) -> PayloadView {
        PayloadView {
            nonce: self.nonce@,
            ciphertext: self.ciphertext@,
            salt: self.salt@,
            signature: self.signature@,
            original_filename: self.original_filename@,
        }
    }
}

impl Clone for EncryptedPayload {
    fn clone(&self) -> (payload: EncryptedPayload)
        ensures
            payload == *self,
    {
        EncryptedPayload {
            nonce: self.nonce.clone(),
            ciphertext: self.ciphertext.clone(),
            salt: self.salt.clone(),
            signature: self.signature.clone(),
            original_filename: self.original_filename.clone(),
        }
    }
}

/// A result with its value and its error taken by their views.
pub open spec fn result_view<T: View>(result: Result<T, CryptoError>) -> Result<T::V, ErrorView> {
    match result {
        Ok(value) => Ok(value@),
        Err(error) => Err(error@),
    }
}

/// A key with every byte zero.
pub open spec fn wiped() -> Seq<u8> {
    Seq::new(32, |i: int| 0u8)
}

/// A salt text that the password hashing accepts: 4 to 64 characters out of
/// `a-z`, `A-Z`, `0-9`, `/`, `+`, `.` and `-`.
pub struct Salt {
    text: String,
}

impl View for Salt {
    type V = Seq<char>;

    closed spec fn view(&self) -> Seq<char> {
        self.text@
    }
}

impl Salt {
    #[verifier::type_invariant]
    spec fn well_formed(self) -> bool {
        primitives::salt_fault(self.text@) is None
    }

    /// A random salt: the base64 text of 16 bytes.
    pub fn generate() -> (salt: Salt)
        ensures
            primitives::salt_fault(salt@) is None,
            fresh_salt(salt@),
    {
        let text = primitives::random_salt();
        proof {
            lemma_salt_text(text@);
        }
        Salt { text }
    }

    /// The salt that `text` writes, or why it writes none.
    pub fn from_b64(text: &str) -> (salt: Result<Salt, String>)
        ensures
            match salt {
                Ok(s) => s@ == text@ && primitives::salt_fault(text@) is None,
                Err(e) => primitives::salt_fault(text@) == Some(e@),
            },
    {
        match primitives::salt_from_b64(text) {
            Ok(text) => Ok(Salt { text }),
            Err(e) => Err(e),
        }
    }

    /// The text of this salt.
    pub fn as_str(&self) -> (text: &str)
        ensures
            text@ == self@,
            primitives::salt_fault(text@) is None,
    {
        proof {
            use_type_invariant(self);
        }
        self.text.as_str()
    }
}

/// The form of a salt that was drawn at random: the base64 text of 16 bytes.
pub open spec fn fresh_salt(salt: Seq<char>) -> bool {
    salt.len() == 22 && primitives::unpadded_base64(salt)
}

/// Permitted characters are one byte long, and a salt text is made of them.
proof fn lemma_salt_text(s: Seq<char>)
    requires
        4 <= s.len() <= 64,
        forall|i: int| 0 <= i < s.len() ==> primitives::salt_char(#[trigger] s[i]),
    ensures
        encode_utf8(s).len() == s.len(),
        primitives::salt_fault(s) is None,
{
    assert(is_ascii_chars(s));
    is_ascii_chars_encode_utf8(s);
}

/// The key that a password and a salt text give, or the error that they give.
pub open spec fn derived_key(password: Seq<char>, salt: Seq<char>) -> Result<Seq<u8>, ErrorView> {
    let secret = encode_utf8(password);
    let salt_bytes = encode_utf8(salt);
    match primitives::argon2_hash_fault(secret.len(), salt) {
        Some(e) => Err(ErrorView::KeyDerivationFailed(e)),
        None => match primitives::argon2_fault(secret.len(), salt_bytes.len()) {
            Some(e) => Err(ErrorView::KeyDerivationFailed(e)),
            None => Ok(primitives::argon2_key(secret, salt_bytes)),
        },
    }
}

/// Whether a salt text is one that a key can be derived with: the unpadded base64 text of
/// at least 8 bytes.
pub open spec fn usable_salt(salt: Seq<char>) -> bool {
    primitives::unpadded_base64(salt) && primitives::unpadded_bytes(salt.len()) >= 8
}

/// Of the salts that are accepted as such, exactly the usable ones give a key, and they do
/// so with every password that is not too long.
pub proof fn law_key_is_derived_from_usable_salts(password: Seq<char>, salt: Seq<char>)
    requires
        primitives::salt_fault(salt) is None,
    ensures
        derived_key(password, salt) is Ok <==> usable_salt(salt) && encode_utf8(password).len()
            <= primitives::argon2_limit(),
{
    assert forall|i: int| 0 <= i < salt.len() implies primitives::salt_char(
        #[trigger] salt[i],
    ) by {
        if !primitives::salt_char(salt[i]) {
            lemma_first_bad_salt_char(salt, i);
        }
    }
    assert(is_ascii_chars(salt));
    is_ascii_chars_encode_utf8(salt);
}

/// Where a salt holds a character that it may not hold, there is a first one.
proof fn lemma_first_bad_salt_char(s: Seq<char>, at: int)
    requires
        0 <= at < s.len(),
        !primitives::salt_char(s[at]),
    ensures
        exists|i: int| primitives::first_bad_salt_char(s, i),
    decreases at,
{
    if exists|j: int| 0 <= j < at && !primitives::salt_char(#[trigger] s[j]) {
        let j = choose|j: int| 0 <= j < at && !primitives::salt_char(#[trigger] s[j]);
        lemma_first_bad_salt_char(s, j);
    } else {
        assert(primitives::first_bad_salt_char(s, at));
    }
}

/// Derives a key from a password and a salt.
pub fn derive_key(password: &str, salt: &Salt) -> (key: Result<[u8; 32], CryptoError>)
    ensures
        result_view(key) == derived_key(password@, salt@),
        key is Ok <==> usable_salt(salt@) && encode_utf8(password@).len()
            <= primitives::argon2_limit(),
        key is Ok ==> key->Ok_0@ == primitives::argon2_key(
            encode_utf8(password@),
            encode_utf8(salt@),
        ),
{
    proof {
        use_type_invariant(salt);
        law_key_is_derived_from_usable_salts(password@, salt@);
    }
    match primitives::hash_password(password, salt.as_str()) {
        Ok(()) => {},
        Err(e) => {
            return Err(CryptoError::KeyDerivationFailed(e));
        },
    }
    match primitives::hash_password_into(password.as_bytes(), salt.as_str().as_bytes()) {
        Ok(key) => Ok(key),
        Err(e) => Err(CryptoError::KeyDerivationFailed(e)),
    }
}

/// Whether a signature text is that of `data` under `key`, or the error that comes of a
/// text that is no base64.
pub open spec fn signature_check(data: Seq<u8>, signature: Seq<char>, key: Seq<u8>) -> Result<
    bool,
    ErrorView,
> {
    match primitives::base64_bytes(signature) {
        Err(e) => Err(ErrorView::DecryptionFailed(e)),
        Ok(code) => Ok(code == primitives::hmac_sha256(key, data)),
    }
}

/// Whether a signature text stands for a code of full length.
pub open spec fn full_code(signature: Seq<char>) -> bool {
    &&& primitives::base64_bytes(signature) is Ok
    &&& primitives::base64_bytes(signature)->Ok_0.len() == 32
}

/// A padded base64 text has four characters for every three bytes begun.
proof fn lemma_base64_text_len(data: Seq<u8>)
    ensures
        primitives::base64_text(data).len() == primitives::base64_len(data.len()),
    decreases data.len(),
{
    if data.len() > 3 {
        lemma_base64_text_len(data.skip(3));
    } else if data.len() > 0 {
        lemma_base64_text_len(Seq::empty());
    }
}

/// Signs `data` under `key`. What is signed so passes `verify_signature`.
pub fn sign_data(data: &[u8], key: &[u8]) -> (signature: Result<String, CryptoError>)
    ensures
        signature is Ok,
        signature->Ok_0@ == primitives::base64_text(primitives::hmac_sha256(key@, data@)),
        signature_check(data@, signature->Ok_0@, key@) == Ok::<bool, ErrorView>(true),
        full_code(signature->Ok_0@),
        signature->Ok_0@.len() == primitives::base64_len(32),
{
    proof {
        lemma_base64_text_len(primitives::hmac_sha256(key@, data@));
    }
    match primitives::hmac_code(key, data) {
        Ok(code) => Ok(primitives::base64_encode(code.as_slice())),
        Err(e) => Err(CryptoError::EncryptionFailed(e)),
    }
}

/// Whether `signature` is that of `data` under `key`. A code that is empty, cut short or
/// too long never passes.
pub fn verify_signature(data: &[u8], signature: &str, key: &[u8]) -> (passed: Result<
    bool,
    CryptoError,
>)
    ensures
        result_view(passed) == signature_check(data@, signature@, key@),
        !full_code(signature@) ==> result_view(passed) != Ok::<bool, ErrorView>(true),
{
    let code = match primitives::base64_decode(signature) {
        Ok(code) => code,
        Err(e) => {
            return Err(CryptoError::DecryptionFailed(e));
        },
    };
    match primitives::hmac_verify(key, data, code.as_slice()) {
        Ok(passed) => Ok(passed),
        Err(e) => Err(CryptoError::DecryptionFailed(e)),
    }
}

/// The payload that `data` gives under a key, a salt and a nonce, or the error.
pub open spec fn sealed(data: Seq<u8>, key: Seq<u8>, salt: Seq<char>, nonce: Seq<u8>) -> Result<
    PayloadView,
    ErrorView,
> {
    if data.len() > primitives::aes_limit() {
        Err(ErrorView::EncryptionFailed("aead::Error"@))
    } else {
        let ciphertext = primitives::aes_seal(key, nonce, data);
        Ok(
            PayloadView {
                nonce: primitives::base64_text(nonce),
                ciphertext: primitives::base64_text(ciphertext),
                salt,
                signature: primitives::base64_text(primitives::hmac_sha256(key, ciphertext)),
                original_filename: Seq::empty(),
            },
        )
    }
}

/// The ciphertext of a payload, once its signature under `key` is found to be right, or
/// the error.
pub open spec fn authenticated(payload: PayloadView, key: Seq<u8>) -> Result<Seq<u8>, ErrorView> {
    match primitives::base64_bytes(payload.ciphertext) {
        Err(e) => Err(ErrorView::DecryptionFailed(e)),
        Ok(ciphertext) => match signature_check(ciphertext, payload.signature, key) {
            Err(e) => Err(e),
            Ok(false) => Err(ErrorView::SignatureVerificationFailed),
            Ok(true) => Ok(ciphertext),
        },
    }
}

/// What a ciphertext holds under `key`, given its code and its nonce, or the error. `None`
/// where the code is right but the nonce does not have twelve bytes.
pub open spec fn opened_parts(
    ciphertext: Seq<u8>,
    code: Seq<u8>,
    nonce: Seq<u8>,
    key: Seq<u8>,
) -> Option<Result<Seq<u8>, ErrorView>> {
    if code != primitives::hmac_sha256(key, ciphertext) {
        Some(Err(ErrorView::SignatureVerificationFailed))
    } else if nonce.len() != 12 {
        None
    } else {
        match primitives::aes_open(key, nonce, ciphertext) {
            None => Some(Err(ErrorView::DecryptionFailed("aead::Error"@))),
            Some(plaintext) => Some(Ok(plaintext)),
        }
    }
}

/// What a payload holds under `key`, or the error. `None` where the payload is signed
/// but its nonce does not have twelve bytes.
pub open spec fn opened(payload: PayloadView, key: Seq<u8>) -> Option<Result<Seq<u8>, ErrorView>> {
    match authenticated(payload, key) {
        Err(e) => Some(Err(e)),
        Ok(ciphertext) => match primitives::base64_bytes(payload.nonce) {
            Err(e) => Some(Err(ErrorView::DecryptionFailed(e))),
            Ok(nonce) => opened_parts(
                ciphertext,
                primitives::base64_bytes(payload.signature)->Ok_0,
                nonce,
                key,
            ),
        },
    }
}

/// What a payload holds under a password, or the error. `None` where the payload is
/// signed but its nonce does not have twelve bytes.
pub open spec fn decrypted(payload: PayloadView, password: Seq<char>) -> Option<
    Result<Seq<u8>, ErrorView>,
> {
    match primitives::salt_fault(payload.salt) {
        Some(e) => Some(Err(ErrorView::DecryptionFailed(e))),
        None => match derived_key(password, payload.salt) {
            Err(e) => Some(Err(e)),
            Ok(key) => opened(payload, key),
        },
    }
}

/// The payload that `data` gives under a password, a salt and a nonce, or the error.
pub open spec fn encrypted(
    data: Seq<u8>,
    password: Seq<char>,
    salt: Seq<char>,
    nonce: Seq<u8>,
) -> Result<PayloadView, ErrorView> {
    match derived_key(password, salt) {
        Err(e) => Err(e),
        Ok(key) => sealed(data, key, salt, nonce),
    }
}

/// The parts of a payload that was made of `data` under `key`: the texts of a nonce of
/// twelve bytes, of the ciphertext with its tag of 16 bytes, and of the ciphertext's code
/// of 32 bytes.
pub open spec fn decodes_to(payload: PayloadView, key: Seq<u8>, data: Seq<u8>) -> bool {
    match (
        primitives::base64_bytes(payload.nonce),
        primitives::base64_bytes(payload.ciphertext),
        primitives::base64_bytes(payload.signature),
    ) {
        (Ok(nonce), Ok(ciphertext), Ok(code)) => {
            &&& nonce.len() == 12
            &&& ciphertext == primitives::aes_seal(key, nonce, data)
            &&& ciphertext.len() == data.len() + 16
            &&& code == primitives::hmac_sha256(key, ciphertext)
            &&& code.len() == 32
            &&& payload.nonce == primitives::base64_text(nonce)
            &&& payload.nonce.len() == primitives::base64_len(12)
            &&& payload.ciphertext == primitives::base64_text(ciphertext)
            &&& payload.ciphertext.len() == primitives::base64_len(data.len() + 16)
            &&& payload.signature == primitives::base64_text(code)
            &&& payload.signature.len() == primitives::base64_len(32)
        },
        _ => false,
    }
}

/// A payload with another nonce.
pub open spec fn with_nonce(payload: PayloadView, nonce: Seq<char>) -> PayloadView {
    PayloadView { nonce, ..payload }
}

/// `nonce` writes twelve bytes, and not those that the nonce of `payload` writes.
pub open spec fn another_nonce(payload: PayloadView, nonce: Seq<char>) -> bool {
    &&& primitives::base64_bytes(nonce) is Ok
    &&& primitives::base64_bytes(nonce)->Ok_0.len() == 12
    &&& primitives::base64_bytes(nonce) != primitives::base64_bytes(payload.nonce)
}

/// Under `key` the payload is refused by the cipher once its nonce is replaced.
pub open spec fn opened_under_own_nonce_only(payload: PayloadView, key: Seq<u8>) -> bool {
    forall|nonce: Seq<char>|
        another_nonce(payload, nonce) ==> opened(#[trigger] with_nonce(payload, nonce), key)
            == Some(Err::<Seq<u8>, ErrorView>(ErrorView::DecryptionFailed("aead::Error"@)))
}

/// With `password` the payload is refused by the cipher once its nonce is replaced.
pub open spec fn decrypted_under_own_nonce_only(
    payload: PayloadView,
    password: Seq<char>,
) -> bool {
    forall|nonce: Seq<char>|
        another_nonce(payload, nonce) ==> decrypted(#[trigger] with_nonce(payload, nonce), password)
            == Some(Err::<Seq<u8>, ErrorView>(ErrorView::DecryptionFailed("aead::Error"@)))
}

/// The parts of a payload that `plaintext` was found in have the lengths that they must
/// have.
pub open spec fn well_sized(payload: PayloadView, plaintext: Seq<u8>) -> bool {
    match (primitives::base64_bytes(payload.nonce), primitives::base64_bytes(payload.ciphertext)) {
        (Ok(nonce), Ok(ciphertext)) => {
            &&& nonce.len() == 12
            &&& ciphertext.len() == plaintext.len() + 16
            &&& full_code(payload.signature)
        },
        _ => false,
    }
}

/// Whether the base64 text of the ciphertext of `len` bytes fits into memory.
pub open spec fn sealable(len: nat) -> bool {
    primitives::base64_len(len + 16) <= isize::MAX
}

/// Whether contents of `len` bytes can be encrypted at all on this machine.
pub fn is_sealable(len: usize) -> (fits: bool)
    ensures
        fits == sealable(len as nat),
{
    let limit: usize = isize::MAX as usize;
    if len > limit - 18 {
        return false;
    }
    (len + 18) / 3 <= limit / 4
}

/// Encrypts and signs `data` under a key. The key is wiped once it has been used.
pub fn seal(data: &[u8], key: &mut [u8; 32], salt: &Salt, nonce: &[u8; 12]) -> (payload: Result<
    EncryptedPayload,
    CryptoError,
>)
    requires
        sealable(data@.len()),
    ensures
        result_view(payload) == sealed(data@, old(key)@, salt@, nonce@),
        payload is Ok ==> opened(payload->Ok_0@, old(key)@) == Some(
            Ok::<Seq<u8>, ErrorView>(data@),
        ),
        payload is Ok ==> decodes_to(payload->Ok_0@, old(key)@, data@),
        payload is Ok ==> opened_under_own_nonce_only(payload->Ok_0@, old(key)@),
        final(key)@ == (if payload is Ok {
            wiped()
        } else {
            old(key)@
        }),
{
    let ciphertext = match primitives::aes_encrypt(key, nonce, data) {
        Ok(ciphertext) => ciphertext,
        Err(e) => {
            return Err(CryptoError::EncryptionFailed(e));
        },
    };
    let signature = sign_data(ciphertext.as_slice(), key)?;
    primitives::wipe(key);
    proof {
        lemma_base64_text_len(nonce@);
        lemma_base64_text_len(ciphertext@);
    }
    Ok(
        EncryptedPayload {
            nonce: primitives::base64_encode(nonce),
            ciphertext: primitives::base64_encode(ciphertext.as_slice()),
            salt: salt.as_str().to_owned(),
            signature,
            original_filename: String::new(),
        },
    )
}

/// Encrypts `data` under a password with a given salt and nonce.
pub fn encrypt_with(data: &[u8], password: &str, salt: &Salt, nonce: &[u8; 12]) -> (payload: Result<
    EncryptedPayload,
    CryptoError,
>)
    requires
        sealable(data@.len()),
    ensures
        result_view(payload) == encrypted(data@, password@, salt@, nonce@),
        payload is Ok ==> decrypted(payload->Ok_0@, password@) == Some(
            Ok::<Seq<u8>, ErrorView>(data@),
        ),
        payload is Ok ==> decodes_to(
            payload->Ok_0@,
            derived_key(password@, payload->Ok_0.salt@)->Ok_0,
            data@,
        ),
        payload is Ok ==> decrypted_under_own_nonce_only(payload->Ok_0@, password@),
        payload is Ok <==> usable_salt(salt@) && encode_utf8(password@).len()
            <= primitives::argon2_limit() && data@.len() <= primitives::aes_limit(),
{
    proof {
        use_type_invariant(salt);
    }
    let mut key = match derive_key(password, salt) {
        Ok(key) => key,
        Err(e) => {
            return Err(e);
        },
    };
    seal(data, &mut key, salt, nonce)
}

/// Encrypts `data` under a password, with a salt and a nonce drawn at random.
///
/// Decrypting the payload with the same password gives `data` back; with another nonce in
/// it, it is refused. Encryption succeeds unless the password or the data is longer than
/// the primitives take.
pub fn encrypt_data(data: &[u8], password: &str) -> (payload: Result<EncryptedPayload, CryptoError>)
    requires
        sealable(data@.len()),
    ensures
        exists|salt: Seq<char>, nonce: Seq<u8>|
            fresh_salt(salt) && nonce.len() == 12 && result_view(payload) == #[trigger] encrypted(
                data@,
                password@,
                salt,
                nonce,
            ),
        payload is Ok ==> fresh_salt(payload->Ok_0.salt@),
        payload is Ok ==> decrypted(payload->Ok_0@, password@) == Some(
            Ok::<Seq<u8>, ErrorView>(data@),
        ),
        payload is Ok <==> encode_utf8(password@).len() <= primitives::argon2_limit() && data@.len()
            <= primitives::aes_limit(),
        payload is Ok ==> decodes_to(
            payload->Ok_0@,
            derived_key(password@, payload->Ok_0.salt@)->Ok_0,
            data@,
        ),
        payload is Ok ==> decrypted_under_own_nonce_only(payload->Ok_0@, password@),
{
    let salt = Salt::generate();
    let nonce = primitives::random_nonce();
    let payload = encrypt_with(data, password, &salt, &nonce);
    assert(result_view(payload) == encrypted(data@, password@, salt@, nonce@));
    payload
}

/// The ciphertext of a payload, once its signature under `key` is found to be right. A
/// key that does not fit the signature is wiped.
fn authenticate(payload: &EncryptedPayload, key: &mut [u8; 32]) -> (ciphertext: Result<
    Vec<u8>,
    CryptoError,
>)
    ensures
        result_view(ciphertext) == authenticated(payload@, old(key)@),
        ciphertext is Ok ==> full_code(payload@.signature),
        final(key)@ == (if result_view(ciphertext) == Err::<Seq<u8>, ErrorView>(
            ErrorView::SignatureVerificationFailed,
        ) {
            wiped()
        } else {
            old(key)@
        }),
{
    let ciphertext = match primitives::base64_decode(payload.ciphertext.as_str()) {
        Ok(ciphertext) => ciphertext,
        Err(e) => {
            return Err(CryptoError::DecryptionFailed(e));
        },
    };
    match verify_signature(ciphertext.as_slice(), payload.signature.as_str(), key) {
        Err(e) => Err(e),
        Ok(false) => {
            primitives::wipe(key);
            Err(CryptoError::SignatureVerificationFailed)
        },
        Ok(true) => Ok(ciphertext),
    }
}

/// The twelve bytes of a nonce as an array.
fn nonce_array(bytes: &[u8]) -> (nonce: [u8; 12])
    requires
        bytes@.len() == 12,
    ensures
        nonce@ == bytes@,
{
    let nonce: [u8; 12] = [
        bytes[0],
        bytes[1],
        bytes[2],
        bytes[3],
        bytes[4],
        bytes[5],
        bytes[6],
        bytes[7],
        bytes[8],
        bytes[9],
        bytes[10],
        bytes[11],
    ];
    assert(nonce@ =~= bytes@);
    nonce
}

/// Checks and decrypts a ciphertext under a key, given its code and its nonce. The key is
/// wiped once the contents are there, and also when it does not fit the code.
pub fn open_parts(ciphertext: &[u8], code: &[u8], nonce: &[u8], key: &mut [u8; 32]) -> (plaintext:
    Result<Vec<u8>, CryptoError>)
    requires
        opened_parts(ciphertext@, code@, nonce@, old(key)@) is Some,
    ensures
        opened_parts(ciphertext@, code@, nonce@, old(key)@) == Some(result_view(plaintext)),
        plaintext is Ok ==> code@.len() == 32 && nonce@.len() == 12 && ciphertext@.len()
            == plaintext->Ok_0@.len() + 16,
        final(key)@ == (if plaintext is Ok || result_view(plaintext) == Err::<Seq<u8>, ErrorView>(
            ErrorView::SignatureVerificationFailed,
        ) {
            wiped()
        } else {
            old(key)@
        }),
{
    match primitives::hmac_verify(key, ciphertext, code) {
        Err(e) => {
            return Err(CryptoError::DecryptionFailed(e));
        },
        Ok(false) => {
            primitives::wipe(key);
            return Err(CryptoError::SignatureVerificationFailed);
        },
        Ok(true) => {},
    }
    let nonce = nonce_array(nonce);
    match primitives::aes_decrypt(key, &nonce, ciphertext) {
        Ok(plaintext) => {
            primitives::wipe(key);
            Ok(plaintext)
        },
        Err(e) => Err(CryptoError::DecryptionFailed(e)),
    }
}

/// Checks and decrypts a payload under a key. The key is wiped once the contents are
/// there, and also when it does not fit the signature.
pub fn open_payload(payload: &EncryptedPayload, key: &mut [u8; 32]) -> (plaintext: Result<
    Vec<u8>,
    CryptoError,
>)
    requires
        opened(payload@, old(key)@) is Some,
    ensures
        opened(payload@, old(key)@) == Some(result_view(plaintext)),
        plaintext is Ok ==> well_sized(payload@, plaintext->Ok_0@),
        final(key)@ == (if plaintext is Ok || result_view(plaintext) == Err::<Seq<u8>, ErrorView>(
            ErrorView::SignatureVerificationFailed,
        ) {
            wiped()
        } else {
            old(key)@
        }),
{
    let nonce = match primitives::base64_decode(payload.nonce.as_str()) {
        Ok(nonce) => nonce,
        Err(fault) => {
            // A wrong signature is reported before a damaged nonce.
            return match authenticate(payload, key) {
                Ok(_) => Err(CryptoError::DecryptionFailed(fault)),
                Err(e) => Err(e),
            };
        },
    };
    let ciphertext = match primitives::base64_decode(payload.ciphertext.as_str()) {
        Ok(ciphertext) => ciphertext,
        Err(e) => {
            return Err(CryptoError::DecryptionFailed(e));
        },
    };
    let code = match primitives::base64_decode(payload.signature.as_str()) {
        Ok(code) => code,
        Err(e) => {
            return Err(CryptoError::DecryptionFailed(e));
        },
    };
    open_parts(ciphertext.as_slice(), code.as_slice(), nonce.as_slice(), key)
}

/// Decrypts a payload with a password. The payload's nonce must have twelve bytes where
/// it comes to be used; `try_decrypt_data` takes every payload.
pub fn decrypt_data(payload: &EncryptedPayload, password: &str) -> (plaintext: Result<
    Vec<u8>,
    CryptoError,
>)
    requires
        decrypted(payload@, password@) is Some,
    ensures
        decrypted(payload@, password@) == Some(result_view(plaintext)),
        plaintext is Ok ==> well_sized(payload@, plaintext->Ok_0@),
{
    let salt = match Salt::from_b64(payload.salt.as_str()) {
        Ok(salt) => salt,
        Err(e) => {
            return Err(CryptoError::DecryptionFailed(e));
        },
    };
    let mut key = match derive_key(password, &salt) {
        Ok(key) => key,
        Err(e) => {
            return Err(e);
        },
    };
    open_payload(payload, &mut key)
}

/// Decrypts a payload with a password. `None` where the payload is signed but its nonce
/// does not have twelve bytes.
pub fn try_decrypt_data(payload: &EncryptedPayload, password: &str) -> (plaintext: Option<
    Result<Vec<u8>, CryptoError>,
>)
    ensures
        match plaintext {
            Some(result) => {
                &&& decrypted(payload@, password@) == Some(result_view(result))
                &&& result is Ok ==> well_sized(payload@, result->Ok_0@)
            },
            None => decrypted(payload@, password@) is None,
        },
{
    match primitives::base64_decode(payload.nonce.as_str()) {
        Ok(nonce) => {
            if nonce.len() != 12 {
                let salt = match Salt::from_b64(payload.salt.as_str()) {
                    Ok(salt) => salt,
                    Err(e) => {
                        return Some(Err(CryptoError::DecryptionFailed(e)));
                    },
                };
                let mut key = match derive_key(password, &salt) {
                    Ok(key) => key,
                    Err(e) => {
                        return Some(Err(e));
                    },
                };
                return match authenticate(payload, &mut key) {
                    Ok(_) => None,
                    Err(e) => Some(Err(e)),
                };
            }
        },
        Err(_) => {},
    }
    Some(decrypt_data(payload, password))
}

/// A payload with another file name.
pub open spec fn renamed(payload: PayloadView, name: Seq<char>) -> PayloadView {
    PayloadView { original_filename: name, ..payload }
}

/// What a payload holds does not depend on the file name that it carries.
pub proof fn law_file_name_is_not_part_of_decryption(
    payload: PayloadView,
    name: Seq<char>,
    password: Seq<char>,
)
    ensures
        decrypted(renamed(payload, name), password) == decrypted(payload, password),
{
}

/// Contents come only out of a payload whose ciphertext carries the signature of the key
/// that the password gives.
pub proof fn law_accepted_payload_is_signed(payload: PayloadView, password: Seq<char>)
    requires
        decrypted(payload, password) is Some,
        decrypted(payload, password)->0 is Ok,
    ensures
        derived_key(password, payload.salt) is Ok,
        primitives::base64_bytes(payload.ciphertext) is Ok,
        primitives::base64_bytes(payload.signature) == Ok::<Seq<u8>, Seq<char>>(
            primitives::hmac_sha256(
                derived_key(password, payload.salt)->Ok_0,
                primitives::base64_bytes(payload.ciphertext)->Ok_0,
            ),
        ),
{
}

/// A payload whose ciphertext or signature was replaced, so that they no longer belong
/// together under the key that the password gives, is refused for its signature.
pub proof fn law_wrong_signature_is_refused(payload: PayloadView, password: Seq<char>)
    requires
        primitives::salt_fault(payload.salt) is None,
        derived_key(password, payload.salt) is Ok,
        primitives::base64_bytes(payload.ciphertext) is Ok,
        primitives::base64_bytes(payload.signature) is Ok,
        primitives::base64_bytes(payload.signature)->Ok_0 != primitives::hmac_sha256(
            derived_key(password, payload.salt)->Ok_0,
            primitives::base64_bytes(payload.ciphertext)->Ok_0,
        ),
    ensures
        decrypted(payload, password) == Some(
            Err::<Seq<u8>, ErrorView>(ErrorView::SignatureVerificationFailed),
        ),
{
}

} // verus!

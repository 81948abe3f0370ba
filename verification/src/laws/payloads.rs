//! The laws of keys and payloads, stated over what the outside primitives give.
use crate::crypto;
use crate::crypto::{EncryptedPayload, PayloadView};
use crate::error::{CryptoError, ErrorView};
use crate::primitives;
use vstd::prelude::*;
use vstd::utf8::*;

verus! {

/// A key is derived from every byte of the password and every byte of the salt.
pub proof fn law_key_comes_from_whole_password_and_salt(password: Seq<char>, salt: Seq<char>)
    requires
        primitives::salt_fault(salt) is None,
    ensures
        crypto::derived_key(password, salt) is Ok <==> primitives::unpadded_base64(salt)
            && salt.len() * 3 / 4 >= 8 && encode_utf8(password).len() <= 0xFFFF_FFFF,
        crypto::derived_key(password, salt) is Ok ==> crypto::derived_key(password, salt)->Ok_0
            == primitives::argon2_key(encode_utf8(password), encode_utf8(salt)),
        crypto::derived_key(password, salt) is Err ==> crypto::derived_key(password, salt)
            == Err::<Seq<u8>, ErrorView>(
            ErrorView::KeyDerivationFailed(
                primitives::argon2_hash_fault(encode_utf8(password).len(), salt)->0,
            ),
        ),
{
    crypto::law_key_is_derived_from_usable_salts(password, salt);
}

/// Two passwords give the same key under a salt only where Argon2 gives the same key for
/// all of their bytes.
pub proof fn law_passwords_are_told_apart(a: Seq<char>, b: Seq<char>, salt: Seq<char>)
    requires
        primitives::salt_fault(salt) is None,
        crypto::derived_key(a, salt) is Ok,
        crypto::derived_key(b, salt) is Ok,
        primitives::argon2_key(encode_utf8(a), encode_utf8(salt)) != primitives::argon2_key(
            encode_utf8(b),
            encode_utf8(salt),
        ),
    ensures
        crypto::derived_key(a, salt) != crypto::derived_key(b, salt),
{
    law_key_comes_from_whole_password_and_salt(a, salt);
    law_key_comes_from_whole_password_and_salt(b, salt);
}

/// A payload that was made under one password is refused under another, for its signature,
/// wherever the keys that Argon2 gives for the two sign the ciphertext differently.
pub proof fn law_other_password_is_refused(
    data: Seq<u8>,
    password: Seq<char>,
    other: Seq<char>,
    salt: Seq<char>,
    nonce: Seq<u8>,
    ciphertext: Seq<u8>,
    payload: PayloadView,
)
    requires
        primitives::salt_fault(salt) is None,
        crypto::encrypted(data, password, salt, nonce) == Ok::<PayloadView, ErrorView>(payload),
        primitives::base64_bytes(payload.ciphertext) == Ok::<Seq<u8>, Seq<char>>(ciphertext),
        primitives::base64_bytes(payload.signature) == Ok::<Seq<u8>, Seq<char>>(
            primitives::hmac_sha256(
                primitives::argon2_key(encode_utf8(password), encode_utf8(salt)),
                ciphertext,
            ),
        ),
        encode_utf8(other).len() <= 0xFFFF_FFFF,
        primitives::hmac_sha256(
            primitives::argon2_key(encode_utf8(other), encode_utf8(salt)),
            ciphertext,
        ) != primitives::hmac_sha256(
            primitives::argon2_key(encode_utf8(password), encode_utf8(salt)),
            ciphertext,
        ),
    ensures
        crypto::decrypted(payload, other) == Some(
            Err::<Seq<u8>, ErrorView>(ErrorView::SignatureVerificationFailed),
        ),
{
    law_key_comes_from_whole_password_and_salt(password, salt);
    law_key_comes_from_whole_password_and_salt(other, salt);
}

/// A payload holds the ciphertext of all the data, the signature of all the ciphertext, and
/// the nonce and the salt as they were given; only data of more than 2^36 bytes is refused.
pub proof fn law_payload_is_made_of_its_parts(
    data: Seq<u8>,
    key: Seq<u8>,
    salt: Seq<char>,
    nonce: Seq<u8>,
)
    ensures
        crypto::sealed(data, key, salt, nonce) is Ok <==> data.len() <= 0x10_0000_0000,
        data.len() <= 0x10_0000_0000 ==> {
            let payload = crypto::sealed(data, key, salt, nonce)->Ok_0;
            let ciphertext = primitives::aes_seal(key, nonce, data);
            &&& payload.ciphertext == primitives::base64_text(ciphertext)
            &&& payload.signature == primitives::base64_text(
                primitives::hmac_sha256(key, ciphertext),
            )
            &&& payload.nonce == primitives::base64_text(nonce)
            &&& payload.salt == salt
            &&& payload.original_filename.len() == 0
        },
        data.len() > 0x10_0000_0000 ==> crypto::sealed(data, key, salt, nonce) == Err::<
            PayloadView,
            ErrorView,
        >(ErrorView::EncryptionFailed("aead::Error"@)),
{
}

/// Encrypting under a password is sealing under the key that Argon2 gives for all of its
/// bytes; where there is no such key, the error of deriving it is the result.
pub proof fn law_password_seals_under_its_key(
    data: Seq<u8>,
    password: Seq<char>,
    salt: Seq<char>,
    nonce: Seq<u8>,
)
    requires
        primitives::salt_fault(salt) is None,
    ensures
        primitives::argon2_hash_fault(encode_utf8(password).len(), salt) is None
            ==> crypto::encrypted(data, password, salt, nonce) == crypto::sealed(
            data,
            primitives::argon2_key(encode_utf8(password), encode_utf8(salt)),
            salt,
            nonce,
        ),
        primitives::argon2_hash_fault(encode_utf8(password).len(), salt) is Some
            ==> crypto::encrypted(data, password, salt, nonce) == Err::<PayloadView, ErrorView>(
            ErrorView::KeyDerivationFailed(
                primitives::argon2_hash_fault(encode_utf8(password).len(), salt)->0,
            ),
        ),
{
    law_key_comes_from_whole_password_and_salt(password, salt);
}

/// A signature passes exactly if it stands for the HMAC code of all the data under the key.
pub proof fn law_signature_passes_exactly_if_it_is_the_code(
    data: Seq<u8>,
    signature: Seq<char>,
    key: Seq<u8>,
)
    ensures
        crypto::signature_check(data, signature, key) == Ok::<bool, ErrorView>(true)
            <==> primitives::base64_bytes(signature) == Ok::<Seq<u8>, Seq<char>>(
            primitives::hmac_sha256(key, data),
        ),
        crypto::signature_check(data, signature, key) is Ok <==> primitives::base64_bytes(
            signature,
        ) is Ok,
        primitives::base64_bytes(signature) is Err ==> crypto::signature_check(data, signature, key)
            == Err::<bool, ErrorView>(
            ErrorView::DecryptionFailed(primitives::base64_bytes(signature)->Err_0),
        ),
{
}

/// Contents come out of a payload exactly where all of its texts are base64, the signature
/// is the code of the whole ciphertext, the nonce has twelve bytes, and the cipher opens
/// the ciphertext to these contents.
pub proof fn law_contents_come_out_exactly_if_authentic(
    payload: PayloadView,
    key: Seq<u8>,
    contents: Seq<u8>,
)
    ensures
        crypto::opened(payload, key) == Some(Ok::<Seq<u8>, ErrorView>(contents)) <==> {
            let ciphertext = primitives::base64_bytes(payload.ciphertext);
            let code = primitives::base64_bytes(payload.signature);
            let nonce = primitives::base64_bytes(payload.nonce);
            &&& ciphertext is Ok && code is Ok && nonce is Ok
            &&& code->Ok_0 == primitives::hmac_sha256(key, ciphertext->Ok_0)
            &&& nonce->Ok_0.len() == 12
            &&& primitives::aes_open(key, nonce->Ok_0, ciphertext->Ok_0) == Some(contents)
        },
{
}

/// Why a payload is refused: a damaged ciphertext is told before a damaged signature, that
/// before a wrong one, that before a damaged nonce, and that before the cipher's refusal.
pub proof fn law_refusals_come_in_order(payload: PayloadView, key: Seq<u8>)
    ensures
        ({
            let ciphertext = primitives::base64_bytes(payload.ciphertext);
            let code = primitives::base64_bytes(payload.signature);
            let nonce = primitives::base64_bytes(payload.nonce);
            let signed = ciphertext is Ok && code is Ok && code->Ok_0 == primitives::hmac_sha256(
                key,
                ciphertext->Ok_0,
            );
            let refused = |e: ErrorView| crypto::opened(payload, key) == Some(
                Err::<Seq<u8>, ErrorView>(e),
            );
            &&& ciphertext is Err ==> refused(ErrorView::DecryptionFailed(ciphertext->Err_0))
            &&& ciphertext is Ok && code is Err ==> refused(
                ErrorView::DecryptionFailed(code->Err_0),
            )
            &&& ciphertext is Ok && code is Ok && !signed <==> refused(
                ErrorView::SignatureVerificationFailed,
            )
            &&& signed && nonce is Err ==> refused(ErrorView::DecryptionFailed(nonce->Err_0))
            &&& signed && nonce is Ok && nonce->Ok_0.len() != 12 <==> crypto::opened(
                payload,
                key,
            ) is None
            &&& signed && nonce is Ok && nonce->Ok_0.len() == 12 && primitives::aes_open(
                key,
                nonce->Ok_0,
                ciphertext->Ok_0,
            ) is None ==> refused(ErrorView::DecryptionFailed("aead::Error"@))
        }),
{
}

/// A ciphertext is opened by its code, its nonce and a key exactly where the code is that
/// of the whole ciphertext and the cipher opens it.
pub proof fn law_parts_open_exactly_if_authentic(
    ciphertext: Seq<u8>,
    code: Seq<u8>,
    nonce: Seq<u8>,
    key: Seq<u8>,
    contents: Seq<u8>,
)
    ensures
        crypto::opened_parts(ciphertext, code, nonce, key) == Some(
            Ok::<Seq<u8>, ErrorView>(contents),
        ) <==> code == primitives::hmac_sha256(key, ciphertext) && nonce.len() == 12
            && primitives::aes_open(key, nonce, ciphertext) == Some(contents),
        crypto::opened_parts(ciphertext, code, nonce, key) == Some(
            Err::<Seq<u8>, ErrorView>(ErrorView::SignatureVerificationFailed),
        ) <==> code != primitives::hmac_sha256(key, ciphertext),
        crypto::opened_parts(ciphertext, code, nonce, key) is None <==> code
            == primitives::hmac_sha256(key, ciphertext) && nonce.len() != 12,
        code == primitives::hmac_sha256(key, ciphertext) && nonce.len() == 12
            && primitives::aes_open(key, nonce, ciphertext) is None ==> crypto::opened_parts(
            ciphertext,
            code,
            nonce,
            key,
        ) == Some(Err::<Seq<u8>, ErrorView>(ErrorView::DecryptionFailed("aead::Error"@))),
{
}

/// Decrypting with a password is opening with the key that Argon2 gives for all of its
/// bytes and the payload's salt; where there is no such key, the error says why.
pub proof fn law_password_opens_with_its_key(payload: PayloadView, password: Seq<char>)
    ensures
        ({
            let salt_fault = primitives::salt_fault(payload.salt);
            let fault = primitives::argon2_hash_fault(encode_utf8(password).len(), payload.salt);
            &&& salt_fault is Some ==> crypto::decrypted(payload, password) == Some(
                Err::<Seq<u8>, ErrorView>(ErrorView::DecryptionFailed(salt_fault->0)),
            )
            &&& salt_fault is None && fault is Some ==> crypto::decrypted(payload, password)
                == Some(Err::<Seq<u8>, ErrorView>(ErrorView::KeyDerivationFailed(fault->0)))
            &&& salt_fault is None && fault is None ==> crypto::decrypted(payload, password)
                == crypto::opened(
                payload,
                primitives::argon2_key(encode_utf8(password), encode_utf8(payload.salt)),
            )
        }),
{
    if primitives::salt_fault(payload.salt) is None {
        law_key_comes_from_whole_password_and_salt(password, payload.salt);
    }
}

/// The view of a payload, of an error and of a result keeps every text and tells every
/// kind apart.
pub proof fn law_views_keep_everything(
    payload: EncryptedPayload,
    error: CryptoError,
    result: Result<EncryptedPayload, CryptoError>,
    plaintext: Result<Vec<u8>, CryptoError>,
)
    ensures
        payload@.nonce == payload.nonce@,
        payload@.ciphertext == payload.ciphertext@,
        payload@.salt == payload.salt@,
        payload@.signature == payload.signature@,
        payload@.original_filename == payload.original_filename@,
        match error {
            CryptoError::EncryptionFailed(e) => error@ == ErrorView::EncryptionFailed(e@),
            CryptoError::DecryptionFailed(e) => error@ == ErrorView::DecryptionFailed(e@),
            CryptoError::KeyDerivationFailed(e) => error@ == ErrorView::KeyDerivationFailed(e@),
            CryptoError::SignatureVerificationFailed => error@
                == ErrorView::SignatureVerificationFailed,
            CryptoError::InvalidPassword => error@ == ErrorView::InvalidPassword,
            CryptoError::MaxAttemptsExceeded => error@ == ErrorView::MaxAttemptsExceeded,
            CryptoError::IoError(e) => error@ == ErrorView::IoError(e),
            CryptoError::SerializationError(e) => error@ == ErrorView::SerializationError(e),
        },
        match result {
            Ok(made) => crypto::result_view(result) == Ok::<PayloadView, ErrorView>(made@),
            Err(e) => crypto::result_view(result) == Err::<PayloadView, ErrorView>(e@),
        },
        match plaintext {
            Ok(bytes) => crypto::result_view(plaintext) == Ok::<Seq<u8>, ErrorView>(bytes@),
            Err(e) => crypto::result_view(plaintext) == Err::<Seq<u8>, ErrorView>(e@),
        },
{
}

/// Contents can be encrypted exactly where four characters for every three bytes begun, of
/// the contents and a tag of 16 bytes, fit into memory; a wiped key is 32 zeros; and a
/// fresh salt is 22 characters of base64.
pub proof fn law_sizes_of_payload_parts(len: nat, salt: Seq<char>)
    ensures
        crypto::sealable(len) <==> (len + 16 + 2) / 3 * 4 <= isize::MAX,
        crypto::wiped().len() == 32,
        forall|i: int| 0 <= i < 32 ==> #[trigger] crypto::wiped()[i] == 0,
        crypto::fresh_salt(salt) <==> salt.len() == 22 && primitives::unpadded_base64(salt),
{
}

} // verus!

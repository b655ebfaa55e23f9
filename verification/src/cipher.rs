use vstd::prelude::*;

use crate::error::AppError;
use crate::text::string_from_utf8;

verus! {

broadcast use vstd::utf8::encode_utf8_valid_utf8, vstd::utf8::encode_utf8_decode_utf8;

/// What `Aes256Gcm::decrypt` returns for a key, a nonce and a ciphertext:
/// the unique plaintext this ciphertext seals, or nothing when the
/// ciphertext is inauthentic. The AEAD is deterministic in its arguments.
pub uninterp spec fn aead_open_of(key: Seq<u8>, nonce: Seq<u8>, ciphertext: Seq<u8>) -> Option<
    Seq<u8>,
>;

/// What base64 (standard alphabet, padded) decoding returns for a text:
/// the decoded bytes, or nothing when the text is not canonical base64.
pub uninterp spec fn base64_decode_of(text: Seq<char>) -> Option<Seq<u8>>;

/// The longest plaintext AES-GCM can seal (NIST SP 800-38D).
pub open spec fn aead_p_max() -> int {
    0x1000000000 - 32
}

/// Relies on `aes_gcm::Aes256Gcm` (`Aead::encrypt`): sealing is deterministic
/// in key, nonce and plaintext; opening the sealed bytes with the same key
/// and nonce returns the plaintext; the output is plaintext plus a 16-byte
/// tag; and sealing fails only for plaintexts beyond the AES-GCM length cap.
#[verifier::external_body]
fn aead_seal(key: &Vec<u8>, nonce: &Vec<u8>, plaintext: &Vec<u8>) -> (r: Result<Vec<u8>, AppError>)
    requires
        key@.len() == 32,
        nonce@.len() == 12,
    ensures
        match r {
            Ok(ct) => {
                &&& aead_open_of(key@, nonce@, ct@) == Some(plaintext@)
                &&& ct@.len() == plaintext@.len() + 16
            },
            Err(e) => e == AppError::AesGcm,
        },
        plaintext@.len() <= aead_p_max() ==> r is Ok,
{
    let cipher = match <aes_gcm::Aes256Gcm as aes_gcm::KeyInit>::new_from_slice(key.as_slice()) {
        Ok(c) => c,
        Err(_) => return Err(AppError::AesGcm),
    };
    let nonce_arr = match aes_gcm::aead::Nonce::<aes_gcm::Aes256Gcm>::try_from(nonce.as_slice()) {
        Ok(n) => n,
        Err(_) => return Err(AppError::AesGcm),
    };
    match aes_gcm::aead::Aead::encrypt(&cipher, &nonce_arr, plaintext.as_slice()) {
        Ok(ct) => Ok(ct),
        Err(_) => Err(AppError::AesGcm),
    }
}

/// Relies on `aes_gcm::Aes256Gcm` (`Aead::decrypt`): opening is deterministic
/// in key, nonce and ciphertext, returns the sealed plaintext for an
/// authentic ciphertext and fails for an inauthentic one.
#[verifier::external_body]
fn aead_open(key: &Vec<u8>, nonce: &Vec<u8>, ciphertext: &Vec<u8>) -> (r: Result<
    Vec<u8>,
    AppError,
>)
    requires
        key@.len() == 32,
        nonce@.len() == 12,
    ensures
        match r {
            Ok(pt) => aead_open_of(key@, nonce@, ciphertext@) == Some(pt@),
            Err(e) => {
                &&& aead_open_of(key@, nonce@, ciphertext@) is None
                &&& e == AppError::AesGcm
            },
        },
{
    let cipher = match <aes_gcm::Aes256Gcm as aes_gcm::KeyInit>::new_from_slice(key.as_slice()) {
        Ok(c) => c,
        Err(_) => return Err(AppError::AesGcm),
    };
    let nonce_arr = match aes_gcm::aead::Nonce::<aes_gcm::Aes256Gcm>::try_from(nonce.as_slice()) {
        Ok(n) => n,
        Err(_) => return Err(AppError::AesGcm),
    };
    match aes_gcm::aead::Aead::decrypt(&cipher, &nonce_arr, ciphertext.as_slice()) {
        Ok(pt) => Ok(pt),
        Err(_) => Err(AppError::AesGcm),
    }
}

/// Relies on `aes_gcm::aead::Generate` for the 96-bit nonce type: a fresh
/// random nonce. Nothing is promised of its value beyond its length.
#[verifier::external_body]
fn generate_nonce() -> (r: Vec<u8>)
    ensures
        r@.len() == 12,
{
    let nonce = <aes_gcm::aead::Nonce<aes_gcm::Aes256Gcm> as aes_gcm::aead::Generate>::generate();
    nonce.as_slice().to_vec()
}

/// Relies on `aes_gcm::aead::Generate` for the 256-bit key type: a fresh
/// random key. Nothing is promised of its value beyond its length.
#[verifier::external_body]
fn generate_key() -> (r: Vec<u8>)
    ensures
        r@.len() == 32,
{
    let key = <aes_gcm::Key<aes_gcm::Aes256Gcm> as aes_gcm::aead::Generate>::generate();
    key.as_slice().to_vec()
}

/// Relies on `base64::engine::Engine::encode` with the standard padded
/// alphabet: decoding the result returns the input, and the result has the
/// usual four-characters-per-three-bytes padded length.
#[verifier::external_body]
fn base64_encode(bytes: &Vec<u8>) -> (r: String)
    ensures
        base64_decode_of(r@) == Some(bytes@),
        r@.len() == 4 * ((bytes@.len() + 2) / 3),
{
    base64::Engine::encode(&base64::prelude::BASE64_STANDARD, bytes.as_slice())
}

/// Relies on `base64::engine::Engine::decode` with the standard padded
/// alphabet: decoding is deterministic in the text and fails exactly for
/// text that is not canonical base64.
#[verifier::external_body]
fn base64_decode(text: &str) -> (r: Result<Vec<u8>, AppError>)
    ensures
        match r {
            Ok(v) => base64_decode_of(text@) == Some(v@),
            Err(e) => {
                &&& base64_decode_of(text@) is None
                &&& e == AppError::Base64Decode
            },
        },
{
    base64::Engine::decode(&base64::prelude::BASE64_STANDARD, text).map_err(
        |_| AppError::Base64Decode,
    )
}

/// Relies on `keyring::Entry::{new, get_secret}`: reads the secret stored
/// under the given service and user in the OS credential store. `NoEntry`
/// becomes `Ok(None)`; the stored bytes depend on the machine, so nothing is
/// promised of them.
#[verifier::external_body]
fn keyring_fetch_secret(service: &str, user: &str) -> (r: Result<Option<Vec<u8>>, AppError>) {
    let entry = keyring::Entry::new(service, user).map_err(|_| AppError::Keyring)?;
    match entry.get_secret() {
        Ok(secret) => Ok(Some(secret)),
        Err(keyring::Error::NoEntry) => Ok(None),
        Err(_) => Err(AppError::Keyring),
    }
}

/// Relies on `keyring::Entry::{new, set_secret}`: stores the bytes under the
/// given service and user in the OS credential store.
#[verifier::external_body]
fn keyring_store_secret(service: &str, user: &str, secret: &Vec<u8>) -> (r: Result<(), AppError>) {
    let entry = keyring::Entry::new(service, user).map_err(|_| AppError::Keyring)?;
    entry.set_secret(secret.as_slice()).map_err(|_| AppError::Keyring)
}

/// What decrypting a nonce-prefixed AEAD ciphertext yields: the layout is a
/// 12-byte nonce followed by the AEAD output, and anything shorter is
/// rejected as a decode failure rather than a panic.
pub open spec fn decrypt_bytes_spec(key: Seq<u8>, ciphertext: Seq<u8>) -> Result<Seq<u8>, AppError> {
    if ciphertext.len() < 12 {
        Err(AppError::AesGcm)
    } else {
        match aead_open_of(
            key,
            ciphertext.subrange(0, 12),
            ciphertext.subrange(12, ciphertext.len() as int),
        ) {
            Some(pt) => Ok(pt),
            None => Err(AppError::AesGcm),
        }
    }
}

/// What the text-safe decryption path yields: base64-decode, split off the
/// nonce, open, then UTF-8-decode, each failure with its own error.
pub open spec fn decrypt_b64_spec(key: Seq<u8>, text: Seq<char>) -> Result<Seq<char>, AppError> {
    match base64_decode_of(text) {
        None => Err(AppError::Base64Decode),
        Some(raw) => match decrypt_bytes_spec(key, raw) {
            Err(e) => Err(e),
            Ok(pt) => if vstd::utf8::valid_utf8(pt) {
                Ok(vstd::utf8::decode_utf8(pt))
            } else {
                Err(AppError::FromUtf8)
            },
        },
    }
}

/// The secret cipher: AES-256-GCM under a key kept in the OS credential
/// store. Ciphertexts are the 12-byte nonce followed by the AEAD output;
/// the text-safe variants wrap that in base64.
pub struct KeyringAesGcmCipher {
    key: Vec<u8>,
}

impl KeyringAesGcmCipher {
    pub closed spec fn key(&self) -> Seq<u8> {
        self.key@
    }

    pub open spec fn wf(&self) -> bool {
        self.key().len() == 32
    }

    /// A cipher keyed from the OS credential store, creating and storing a
    /// fresh key the first time.
    pub fn new() -> (r: Result<KeyringAesGcmCipher, AppError>)
        ensures
            r matches Ok(c) ==> c.wf(),
    {
        let key = load_or_create_key()?;
        Ok(KeyringAesGcmCipher { key })
    }

    /// A cipher over an explicitly supplied 256-bit key.
    pub fn from_key(key: Vec<u8>) -> (r: KeyringAesGcmCipher)
        requires
            key@.len() == 32,
        ensures
            r.wf(),
            r.key() == key@,
    {
        KeyringAesGcmCipher { key }
    }

    /// Seal a plaintext under a fresh nonce. The result decrypts back to the
    /// plaintext, and sealing succeeds for every plaintext within the
    /// AES-GCM length cap.
    pub fn encrypt(&self, plaintext: &Vec<u8>) -> (r: Result<Vec<u8>, AppError>)
        requires
            self.wf(),
        ensures
            match r {
                Ok(ct) => {
                    &&& ct@.len() == plaintext@.len() + 28
                    &&& decrypt_bytes_spec(self.key(), ct@) == Ok::<Seq<u8>, AppError>(plaintext@)
                },
                Err(e) => e == AppError::AesGcm,
            },
            plaintext@.len() <= aead_p_max() ==> r is Ok,
    {
        let nonce = generate_nonce();
        let sealed = aead_seal(&self.key, &nonce, plaintext)?;
        let ghost nonce_v = nonce@;
        let ghost sealed_v = sealed@;
        let mut out = nonce;
        out.extend_from_slice(sealed.as_slice());
        proof {
            assert(out@ == nonce_v + sealed_v);
            assert(out@.subrange(0, 12) =~= nonce_v);
            assert(out@.subrange(12, out@.len() as int) =~= sealed_v);
        }
        Ok(out)
    }

    /// Open a nonce-prefixed ciphertext. A ciphertext shorter than the
    /// 12-byte nonce fails with a decode error; otherwise the result is
    /// exactly what the AEAD yields for the split nonce and body.
    pub fn decrypt(&self, ciphertext: &Vec<u8>) -> (r: Result<Vec<u8>, AppError>)
        requires
            self.wf(),
        ensures
            match r {
                Ok(pt) => decrypt_bytes_spec(self.key(), ciphertext@) == Ok::<Seq<u8>, AppError>(
                    pt@,
                ),
                Err(e) => decrypt_bytes_spec(self.key(), ciphertext@) == Err::<Seq<u8>, AppError>(
                    e,
                ),
            },
    {
        if ciphertext.len() < 12 {
            return Err(AppError::AesGcm);
        }
        let nonce = vstd::slice::slice_to_vec(&ciphertext.as_slice()[0..12]);
        let body = vstd::slice::slice_to_vec(
            &ciphertext.as_slice()[12..ciphertext.len()],
        );
        proof {
            assert(nonce@ =~= ciphertext@.subrange(0, 12));
            assert(body@ =~= ciphertext@.subrange(12, ciphertext@.len() as int));
        }
        aead_open(&self.key, &nonce, &body)
    }

    /// Seal a string and render the ciphertext as base64 text. The result
    /// decrypts back to the string through the text-safe path.
    pub fn encrypt_str_base64(&self, plaintext: &str) -> (r: Result<String, AppError>)
        requires
            self.wf(),
        ensures
            r matches Ok(ct) ==> decrypt_b64_spec(self.key(), ct@) == Ok::<Seq<char>, AppError>(
                plaintext@,
            ),
            r matches Err(e) ==> e == AppError::AesGcm,
            vstd::utf8::encode_utf8(plaintext@).len() <= aead_p_max() ==> r is Ok,
    {
        let bytes = vstd::slice::slice_to_vec(plaintext.as_bytes());
        let ct = self.encrypt(&bytes)?;
        let text = base64_encode(&ct);
        proof {
            assert(bytes@ == vstd::utf8::encode_utf8(plaintext@));
            assert(vstd::utf8::valid_utf8(bytes@));
            assert(vstd::utf8::decode_utf8(bytes@) == plaintext@);
        }
        Ok(text)
    }

    /// Decode base64 text and open the ciphertext inside, yielding the
    /// sealed string. Each stage reports its own failure: base64, AEAD,
    /// then UTF-8.
    pub fn decrypt_base64_str(&self, ciphertext_base64: &str) -> (r: Result<String, AppError>)
        requires
            self.wf(),
        ensures
            match r {
                Ok(s) => decrypt_b64_spec(self.key(), ciphertext_base64@) == Ok::<
                    Seq<char>,
                    AppError,
                >(s@),
                Err(e) => decrypt_b64_spec(self.key(), ciphertext_base64@) == Err::<
                    Seq<char>,
                    AppError,
                >(e),
            },
    {
        let raw = base64_decode(ciphertext_base64)?;
        let pt = self.decrypt(&raw)?;
        string_from_utf8(pt)
    }
}

/// Fetch the 256-bit key from the OS credential store, or create and store
/// one the first time.
fn load_or_create_key() -> (r: Result<Vec<u8>, AppError>)
    ensures
        r matches Ok(k) ==> k@.len() == 32,
{
    match keyring_fetch_secret("askkit", "local")? {
        Some(k) => {
            if k.len() == 32 {
                Ok(k)
            } else {
                Err(AppError::Keyring)
            }
        },
        None => {
            let k = generate_key();
            keyring_store_secret("askkit", "local", &k)?;
            Ok(k)
        },
    }
}

/// Decrypt(Encrypt(x)) == x: sealing any byte sequence within the AES-GCM
/// length cap — the empty sequence included — and opening the result with
/// the same cipher returns the sequence unchanged.
pub fn encrypt_then_decrypt(cipher: &KeyringAesGcmCipher, plaintext: &Vec<u8>) -> (r: Vec<u8>)
    requires
        cipher.wf(),
        plaintext@.len() <= aead_p_max(),
    ensures
        r@ == plaintext@,
{
    let ct = cipher.encrypt(plaintext).unwrap();
    cipher.decrypt(&ct).unwrap()
}

} // verus!

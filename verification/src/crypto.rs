//! The vault file format: a key from the master password by Argon2id, the vault
//! sealed with XChaCha20-Poly1305, and the parts of the file in base64.
use crate::codec::{
    decode_standard, encode_standard, encode_url_safe, is_standard_text, law_standard_round_trip,
    law_url_safe_text_of_sixteen, standard_bytes, standard_text, standard_text_fits,
    url_safe_text,
};
use crate::model::{EncFile, EncFileView, ErrorView, VaultError};
use aead::{Aead, KeyInit};
use argon2::{Algorithm, Argon2, Params, Version};
use chacha20poly1305::{Key, XChaCha20Poly1305, XNonce};
use rand::rngs::OsRng;
use rand::RngCore;
use vstd::prelude::*;
use vstd::utf8::encode_utf8;
use zeroize::Zeroize;

verus! {

/// The mark at the head of every vault file.
pub const MAGIC: &'static str = "RV_GUI_V1";

/// The number of bytes in a nonce.
pub const NONCE_LEN: usize = 24;

/// The costs of the key derivation.
#[derive(Clone, Copy, Debug, PartialEq, Eq, Structural)]
pub struct ArgonParams {
    pub m_cost: u32,
    pub t_cost: u32,
    pub p_cost: u32,
}

/// The memory cost with which new files are written, in KiB.
pub const KDF_M_COST: u32 = 65536;

/// The number of passes with which new files are written.
pub const KDF_T_COST: u32 = 3;

/// The number of lanes with which new files are written.
pub const KDF_P_COST: u32 = 1;

/// The costs with which new files are written.
pub open spec fn kdf_params() -> ArgonParams {
    ArgonParams { m_cost: KDF_M_COST, t_cost: KDF_T_COST, p_cost: KDF_P_COST }
}

// ---------------------------------------------------------------------------
// Model
// ---------------------------------------------------------------------------

/// The Argon2id key (version 0x13, thirty-two bytes) of a password and a salt.
pub uninterp spec fn argon2id_key(
    password: Seq<u8>,
    salt: Seq<u8>,
    m_cost: u32,
    t_cost: u32,
    p_cost: u32,
) -> Seq<u8>;

/// The XChaCha20-Poly1305 ciphertext of a message, tag included.
pub uninterp spec fn aead_sealed(key: Seq<u8>, nonce: Seq<u8>, message: Seq<u8>) -> Seq<u8>;

/// The message that an XChaCha20-Poly1305 ciphertext holds, if its tag is right.
pub uninterp spec fn aead_opened(key: Seq<u8>, nonce: Seq<u8>, sealed: Seq<u8>) -> Option<Seq<u8>>;

/// Why the key derivation refuses its costs, if it does.
pub open spec fn params_error(p: ArgonParams) -> Option<Seq<char>> {
    if p.m_cost < 8 || p.m_cost < p.p_cost * 8 {
        Some("memory cost is too small"@)
    } else if p.t_cost < 1 {
        Some("time cost is too small"@)
    } else if p.p_cost < 1 {
        Some("not enough threads"@)
    } else if p.p_cost > 0xFF_FFFF {
        Some("too many threads"@)
    } else {
        None
    }
}

/// Why the key derivation refuses a password and a salt of these lengths, if it does.
pub open spec fn hash_error(password_len: nat, salt_len: nat) -> Option<Seq<char>> {
    if password_len > 0xFFFF_FFFF {
        Some("password is too long"@)
    } else if salt_len < 8 {
        Some("salt is too short"@)
    } else if salt_len > 0xFFFF_FFFF {
        Some("salt is too long"@)
    } else {
        None
    }
}

/// The memory that the key derivation asks for is addressable.
pub open spec fn kdf_runs(p: ArgonParams) -> bool {
    p.m_cost * 1024 <= isize::MAX
}

/// The lane count is small enough for the key derivation to check it: eight times
/// the count can be held.
pub open spec fn lanes_checkable(p: ArgonParams) -> bool {
    p.p_cost * 8 <= u32::MAX
}

/// The outcome of deriving a key.
pub open spec fn derived_key(password: Seq<char>, salt: Seq<u8>, p: ArgonParams) -> Result<
    Seq<u8>,
    ErrorView,
> {
    let bytes = encode_utf8(password);
    if params_error(p) is Some {
        Err(ErrorView::Crypto("Argon2 params error: "@ + params_error(p).unwrap()))
    } else if hash_error(bytes.len(), salt.len()) is Some {
        Err(ErrorView::Crypto("KDF failed: "@ + hash_error(bytes.len(), salt.len()).unwrap()))
    } else {
        Ok(argon2id_key(bytes, salt, p.m_cost, p.t_cost, p.p_cost))
    }
}

/// The cipher is out of key stream for a message of this many bytes and says so.
pub open spec fn message_too_long(n: int) -> bool {
    n / 64 >= 0xFFFF_FFFF
}

/// The cipher can be run on a message of this many bytes. The lengths left out,
/// just below the limit, would exhaust its block counter.
pub open spec fn cipher_runs(n: int) -> bool {
    n <= 0xFFFF_FFFE * 64 || message_too_long(n)
}

/// A file can be made of a message of this many bytes.
pub open spec fn sealable(n: nat) -> bool {
    cipher_runs(n as int) && standard_text_fits(n + 16)
}

/// The outcome of encrypting `message` with the given salt and nonce.
pub open spec fn encrypted(
    message: Seq<u8>,
    password: Seq<char>,
    salt: Seq<u8>,
    nonce: Seq<u8>,
) -> Result<EncFileView, ErrorView> {
    match derived_key(password, salt, kdf_params()) {
        Err(e) => Err(e),
        Ok(key) => if message_too_long(message.len() as int) {
            Err(ErrorView::Crypto("Encryption failed"@))
        } else {
            Ok(
                EncFileView {
                    magic: MAGIC@,
                    salt_b64: standard_text(salt),
                    nonce_b64: standard_text(nonce),
                    cipher_b64: standard_text(aead_sealed(key, nonce, message)),
                    m_cost: KDF_M_COST,
                    t_cost: KDF_T_COST,
                    p_cost: KDF_P_COST,
                },
            )
        },
    }
}

/// The costs that a file names.
pub open spec fn file_params(enc: EncFileView) -> ArgonParams {
    ArgonParams { m_cost: enc.m_cost, t_cost: enc.t_cost, p_cost: enc.p_cost }
}

/// The magic is right and the three encoded parts of the file decode.
pub open spec fn file_decodes(enc: EncFileView) -> bool {
    &&& enc.magic == MAGIC@
    &&& is_standard_text(enc.salt_b64)
    &&& is_standard_text(enc.nonce_b64)
    &&& is_standard_text(enc.cipher_b64)
}

/// Decryption of this file can be run on this machine: the memory that its costs
/// ask for is addressable, and the cipher takes a message of its length.
pub open spec fn decryptable(enc: EncFileView, password: Seq<char>) -> bool {
    file_decodes(enc) ==> {
        &&& kdf_runs(file_params(enc))
        &&& derived_key(password, standard_bytes(enc.salt_b64).unwrap(), file_params(enc)) is Ok
            && standard_bytes(enc.nonce_b64).unwrap().len() == NONCE_LEN ==> cipher_runs(
            standard_bytes(enc.cipher_b64).unwrap().len() - 16,
        )
    }
}

/// The outcome of decrypting a file with a password.
pub open spec fn decrypted(enc: EncFileView, password: Seq<char>) -> Result<Seq<u8>, ErrorView> {
    if enc.magic != MAGIC@ {
        Err(ErrorView::Msg("Bad file magic"@))
    } else if !is_standard_text(enc.salt_b64) {
        Err(ErrorView::Msg("Bad salt"@))
    } else if !is_standard_text(enc.nonce_b64) {
        Err(ErrorView::Msg("Bad nonce"@))
    } else if !is_standard_text(enc.cipher_b64) {
        Err(ErrorView::Msg("Bad ciphertext"@))
    } else {
        match derived_key(password, standard_bytes(enc.salt_b64).unwrap(), file_params(enc)) {
            Err(e) => Err(e),
            Ok(key) => if standard_bytes(enc.nonce_b64).unwrap().len() != NONCE_LEN {
                Err(ErrorView::Msg("Bad nonce"@))
            } else {
                match aead_opened(
                    key,
                    standard_bytes(enc.nonce_b64).unwrap(),
                    standard_bytes(enc.cipher_b64).unwrap(),
                ) {
                    Some(message) => Ok(message),
                    None => Err(ErrorView::Msg("Decryption failed (wrong password?)"@)),
                }
            },
        }
    }
}

/// The ciphertext of the file is `n` bytes long.
pub open spec fn holds_sealed(enc: EncFileView, n: nat) -> bool {
    standard_bytes(enc.cipher_b64) matches Some(cipher) && cipher.len() == n
}

/// The ciphertext of the file is what sealing `message` gives, with the nonce of
/// the file and the key that its salt and costs make of the password.
pub open spec fn seals(enc: EncFileView, password: Seq<char>, message: Seq<u8>) -> bool {
    &&& file_decodes(enc)
    &&& standard_bytes(enc.nonce_b64).unwrap().len() == NONCE_LEN
    &&& derived_key(password, standard_bytes(enc.salt_b64).unwrap(), file_params(enc)) matches Ok(
        key,
    )
    &&& enc.cipher_b64 == standard_text(
        aead_sealed(key, standard_bytes(enc.nonce_b64).unwrap(), message),
    )
}

// ---------------------------------------------------------------------------
// Outside functions
// ---------------------------------------------------------------------------

/// Where the key derivation failed, with the reason in words.
pub enum KdfFailure {
    Params(String),
    Hash(String),
}

/// `Params::new`, `Argon2::new` (Argon2id, version 0x13) and
/// `Argon2::hash_password_into` of the crate `argon2`. The costs are checked
/// first, then the lengths of password and salt; what is refused is refused with
/// the stated words, and on everything else the key is a function of the
/// arguments. The lane count is multiplied by eight in 32 bits, and the memory
/// (one KiB per unit of memory cost) is allocated at once; an allocation that the
/// machine cannot serve ends the process.
#[verifier::external_body]
pub(crate) fn argon2id(password: &[u8], salt: &[u8], p: ArgonParams) -> (res: Result<
    [u8; 32],
    KdfFailure,
>)
    requires
        kdf_runs(p),
        lanes_checkable(p),
    ensures
        match res {
            Ok(key) => {
                &&& params_error(p) is None
                &&& hash_error(password@.len(), salt@.len()) is None
                &&& key@ == argon2id_key(password@, salt@, p.m_cost, p.t_cost, p.p_cost)
            },
            Err(KdfFailure::Params(text)) => params_error(p) == Some(text@),
            Err(KdfFailure::Hash(text)) => {
                &&& params_error(p) is None
                &&& hash_error(password@.len(), salt@.len()) == Some(text@)
            },
        },
{
    let params = Params::new(p.m_cost, p.t_cost, p.p_cost, None)
        .map_err(|e| KdfFailure::Params(e.to_string()))?;
    let mut key = [0u8; 32];
    Argon2::new(Algorithm::Argon2id, Version::V0x13, params)
        .hash_password_into(password, salt, &mut key)
        .map_err(|e| KdfFailure::Hash(e.to_string()))?;
    Ok(key)
}

/// `Aead::encrypt` of the crates `aead` and `chacha20poly1305` for
/// `XChaCha20Poly1305`. It refuses exactly the messages that are too long; the
/// ciphertext is otherwise a function of key, nonce and message, sixteen bytes
/// longer than the message, and `decrypt` with the same key and nonce gives the
/// message back. Key and nonce must have their fixed lengths.
#[verifier::external_body]
pub(crate) fn seal(key: &[u8], nonce: &[u8], message: &[u8]) -> (res: Option<Vec<u8>>)
    requires
        key@.len() == 32,
        nonce@.len() == NONCE_LEN,
        cipher_runs(message@.len() as int),
        message@.len() + 16 <= isize::MAX,
    ensures
        res is None <==> message_too_long(message@.len() as int),
        res matches Some(sealed) ==> {
            &&& sealed@ == aead_sealed(key@, nonce@, message@)
            &&& sealed@.len() == message@.len() + 16
            &&& aead_opened(key@, nonce@, sealed@) == Some(message@)
        },
{
    XChaCha20Poly1305::new(Key::from_slice(key)).encrypt(XNonce::from_slice(nonce), message).ok()
}

/// `Aead::decrypt` of the crates `aead` and `chacha20poly1305` for
/// `XChaCha20Poly1305`. Whether it succeeds, and with what, is a function of key,
/// nonce and ciphertext. It recomputes the tag, so that it gives a message only for
/// the ciphertext that `encrypt` makes of that message with the same key and nonce.
/// Key and nonce must have their fixed lengths. That a ciphertext made with another
/// key, or altered by someone without the key, is refused rests on the strength of
/// the tag and is not claimed.
#[verifier::external_body]
pub(crate) fn unseal(key: &[u8], nonce: &[u8], sealed: &[u8]) -> (res: Option<Vec<u8>>)
    requires
        key@.len() == 32,
        nonce@.len() == NONCE_LEN,
        cipher_runs(sealed@.len() - 16),
    ensures
        match res {
            Some(message) => {
                &&& aead_opened(key@, nonce@, sealed@) == Some(message@)
                &&& aead_sealed(key@, nonce@, message@) == sealed@
                &&& message@.len() + 16 == sealed@.len()
            },
            None => aead_opened(key@, nonce@, sealed@) is None,
        },
{
    XChaCha20Poly1305::new(Key::from_slice(key)).decrypt(XNonce::from_slice(nonce), sealed).ok()
}

/// `RngCore::fill_bytes` of the crate `rand` on `OsRng`: as many bytes as asked
/// for, whatever they are. It panics when the operating system has no randomness
/// to give, whatever the arguments.
#[verifier::external_body]
pub(crate) fn random_bytes(n: usize) -> (res: Vec<u8>)
    requires
        n <= isize::MAX,
    ensures
        res@.len() == n,
{
    let mut bytes = vec![0u8; n];
    OsRng.fill_bytes(&mut bytes);
    bytes
}

/// `Zeroize::zeroize` of the crate `zeroize` on a byte array: every byte becomes
/// zero.
#[verifier::external_body]
pub(crate) fn wipe_key(key: &mut [u8; 32])
    ensures
        final(key)@ == Seq::new(32, |i: int| 0u8),
{
    key.zeroize();
}

/// `Zeroize::zeroize` of the crate `zeroize` on a `String`: the text becomes
/// empty (and the memory it stood in is overwritten).
#[verifier::external_body]
pub(crate) fn wipe_text(s: &mut String)
    ensures
        final(s)@ == Seq::<char>::empty(),
{
    s.zeroize();
}

// ---------------------------------------------------------------------------
// Keys
// ---------------------------------------------------------------------------

/// Derives the file key from the master password.
pub fn derive_key(password: &str, salt: &[u8], params: &ArgonParams) -> (res: Result<
    [u8; 32],
    VaultError,
>)
    requires
        kdf_runs(*params),
    ensures
        match res {
            Ok(key) => {
                &&& derived_key(password@, salt@, *params) == Ok::<Seq<u8>, ErrorView>(key@)
                &&& key@ == argon2id_key(
                    encode_utf8(password@),
                    salt@,
                    params.m_cost,
                    params.t_cost,
                    params.p_cost,
                )
            },
            Err(e) => derived_key(password@, salt@, *params) == Err::<Seq<u8>, ErrorView>(e@),
        },
{
    if params.p_cost > u32::MAX / 8 {
        // No memory cost reaches eight times this many lanes.
        return Err(
            VaultError::Crypto(
                "Argon2 params error: ".to_string().concat("memory cost is too small"),
            ),
        );
    }
    match argon2id(password.as_bytes(), salt, *params) {
        Ok(key) => Ok(key),
        Err(KdfFailure::Params(text)) => Err(
            VaultError::Crypto("Argon2 params error: ".to_string().concat(text.as_str())),
        ),
        Err(KdfFailure::Hash(text)) => Err(
            VaultError::Crypto("KDF failed: ".to_string().concat(text.as_str())),
        ),
    }
}

// ---------------------------------------------------------------------------
// Encryption
// ---------------------------------------------------------------------------

/// Whether a file can be made of a message of this many bytes.
pub fn is_sealable(n: usize) -> (res: bool)
    ensures
        res == sealable(n as nat),
{
    let len: u128 = n as u128;
    let runs: bool = len <= 0xFFFF_FFFE * 64 || len / 64 >= 0xFFFF_FFFF;
    runs && (len + 18) / 3 * 4 <= isize::MAX as u128
}

/// Encrypts a serialised vault with a given salt and nonce.
pub fn encrypt_with(message: &[u8], password: &str, salt: &[u8], nonce: &[u8]) -> (res: Result<
    EncFile,
    VaultError,
>)
    requires
        salt@.len() == 16,
        nonce@.len() == NONCE_LEN,
        sealable(message@.len()),
    ensures
        match res {
            Ok(file) => {
                &&& encrypted(message@, password@, salt@, nonce@) == Ok::<EncFileView, ErrorView>(
                    file@,
                )
                &&& file.magic@ == "RV_GUI_V1"@
                &&& file.salt_b64@ == standard_text(salt@)
                &&& file.nonce_b64@ == standard_text(nonce@)
                &&& file.cipher_b64@ == standard_text(
                    aead_sealed(
                        argon2id_key(encode_utf8(password@), salt@, 65536, 3, 1),
                        nonce@,
                        message@,
                    ),
                )
                &&& file.m_cost == 65536 && file.t_cost == 3 && file.p_cost == 1
                &&& holds_sealed(file@, message@.len() + 16)
                &&& decryptable(file@, password@)
                &&& decrypted(file@, password@) == Ok::<Seq<u8>, ErrorView>(message@)
            },
            Err(e) => encrypted(message@, password@, salt@, nonce@) == Err::<
                EncFileView,
                ErrorView,
            >(e@),
        },
{
    let params = ArgonParams { m_cost: KDF_M_COST, t_cost: KDF_T_COST, p_cost: KDF_P_COST };
    let mut key: [u8; 32] = match derive_key(password, salt, &params) {
        Ok(key) => key,
        Err(e) => {
            return Err(e);
        },
    };
    let sealed: Option<Vec<u8>> = seal(key.as_slice(), nonce, message);
    wipe_key(&mut key);
    match sealed {
        None => Err(VaultError::Crypto("Encryption failed".to_string())),
        Some(cipher) => {
            let file = EncFile {
                magic: MAGIC.to_string(),
                salt_b64: encode_standard(salt),
                nonce_b64: encode_standard(nonce),
                cipher_b64: encode_standard(cipher.as_slice()),
                m_cost: KDF_M_COST,
                t_cost: KDF_T_COST,
                p_cost: KDF_P_COST,
            };
            proof {
                law_standard_round_trip(salt@);
                law_standard_round_trip(nonce@);
                law_standard_round_trip(cipher@);
                assert(file_params(file@) == kdf_params());
            }
            Ok(file)
        },
    }
}

/// Encrypts a serialised vault under a fresh salt and nonce.
pub fn encrypt_vault(message: &[u8], password: &str) -> (res: Result<EncFile, VaultError>)
    requires
        sealable(message@.len()),
    ensures
        match res {
            Ok(file) => {
                &&& exists|salt: Seq<u8>, nonce: Seq<u8>|
                    salt.len() == 16 && nonce.len() == NONCE_LEN && #[trigger] encrypted(
                        message@,
                        password@,
                        salt,
                        nonce,
                    ) == Ok::<EncFileView, ErrorView>(file@)
                &&& holds_sealed(file@, message@.len() + 16)
                &&& decryptable(file@, password@)
                &&& decrypted(file@, password@) == Ok::<Seq<u8>, ErrorView>(message@)
            },
            Err(e) => e@ == (if encode_utf8(password@).len() > 0xFFFF_FFFF {
                ErrorView::Crypto("KDF failed: "@ + "password is too long"@)
            } else {
                ErrorView::Crypto("Encryption failed"@)
            }),
        },
        res is Err <==> encode_utf8(password@).len() > 0xFFFF_FFFF || message_too_long(
            message@.len() as int,
        ),
{
    let salt: Vec<u8> = random_bytes(16);
    let nonce: Vec<u8> = random_bytes(NONCE_LEN);
    encrypt_with(message, password, salt.as_slice(), nonce.as_slice())
}

// ---------------------------------------------------------------------------
// Decryption
// ---------------------------------------------------------------------------

proof fn lemma_decoded(t: Seq<char>, b: Seq<u8>)
    requires
        standard_text(b) == t,
    ensures
        is_standard_text(t),
        standard_bytes(t) == Some(b),
{
    law_standard_round_trip(b);
}

/// The three encoded parts of a file, decoded, or why they cannot be.
fn decode_parts(enc: &EncFile) -> (res: Result<(Vec<u8>, Vec<u8>, Vec<u8>), VaultError>)
    ensures
        match res {
            Ok((salt, nonce, cipher)) => {
                &&& file_decodes(enc@)
                &&& standard_bytes(enc@.salt_b64) == Some(salt@)
                &&& standard_bytes(enc@.nonce_b64) == Some(nonce@)
                &&& standard_bytes(enc@.cipher_b64) == Some(cipher@)
            },
            Err(e) => {
                &&& !file_decodes(enc@)
                &&& forall|password: Seq<char>|
                    #[trigger] decrypted(enc@, password) == Err::<Seq<u8>, ErrorView>(e@)
            },
        },
{
    let magic: String = MAGIC.to_string();
    if enc.magic != magic {
        return Err(VaultError::Msg("Bad file magic".to_string()));
    }
    let salt: Vec<u8> = match decode_standard(enc.salt_b64.as_str()) {
        Some(b) => b,
        None => {
            return Err(VaultError::Msg("Bad salt".to_string()));
        },
    };
    let nonce: Vec<u8> = match decode_standard(enc.nonce_b64.as_str()) {
        Some(b) => b,
        None => {
            proof {
                lemma_decoded(enc@.salt_b64, salt@);
            }
            return Err(VaultError::Msg("Bad nonce".to_string()));
        },
    };
    let cipher: Vec<u8> = match decode_standard(enc.cipher_b64.as_str()) {
        Some(b) => b,
        None => {
            proof {
                lemma_decoded(enc@.salt_b64, salt@);
                lemma_decoded(enc@.nonce_b64, nonce@);
            }
            return Err(VaultError::Msg("Bad ciphertext".to_string()));
        },
    };
    proof {
        lemma_decoded(enc@.salt_b64, salt@);
        lemma_decoded(enc@.nonce_b64, nonce@);
        lemma_decoded(enc@.cipher_b64, cipher@);
    }
    Ok((salt, nonce, cipher))
}

/// Decrypts a vault file: the serialised vault, or what is wrong.
pub fn decrypt_vault(enc: &EncFile, password: &str) -> (res: Result<Vec<u8>, VaultError>)
    requires
        decryptable(enc@, password@),
    ensures
        match res {
            Ok(message) => {
                &&& decrypted(enc@, password@) == Ok::<Seq<u8>, ErrorView>(message@)
                &&& seals(enc@, password@, message@)
            },
            Err(e) => decrypted(enc@, password@) == Err::<Seq<u8>, ErrorView>(e@),
        },
{
    match decode_parts(enc) {
        Err(e) => Err(e),
        Ok((salt, nonce, cipher)) => {
            let params = ArgonParams {
                m_cost: enc.m_cost,
                t_cost: enc.t_cost,
                p_cost: enc.p_cost,
            };
            match derive_key(password, salt.as_slice(), &params) {
                Err(e) => Err(e),
                Ok(derived) => {
                    let mut key: [u8; 32] = derived;
                    if nonce.len() != NONCE_LEN {
                        wipe_key(&mut key);
                        return Err(VaultError::Msg("Bad nonce".to_string()));
                    }
                    let opened: Option<Vec<u8>> = unseal(
                        key.as_slice(),
                        nonce.as_slice(),
                        cipher.as_slice(),
                    );
                    wipe_key(&mut key);
                    match opened {
                        Some(message) => {
                            proof {
                                assert(standard_text(cipher@) == enc@.cipher_b64);
                            }
                            Ok(message)
                        },
                        None => Err(
                            VaultError::Msg("Decryption failed (wrong password?)".to_string()),
                        ),
                    }
                },
            }
        },
    }
}

fn refuses(password: &str, salt: &[u8], p: &ArgonParams) -> (res: bool)
    ensures
        res == (derived_key(password@, salt@, *p) is Err),
{
    let n: usize = password.as_bytes().len();
    p.m_cost < 8 || (p.m_cost as u64) < (p.p_cost as u64) * 8 || p.t_cost < 1 || p.p_cost < 1
        || p.p_cost > 0xFF_FFFF || n as u64 > 0xFFFF_FFFF || salt.len() < 8 || salt.len() as u64
        > 0xFFFF_FFFF
}

/// Decrypts a vault file that may come from anywhere: nothing is returned when it
/// asks for more than this machine can address or the cipher can count, and otherwise
/// what `decrypt_vault` returns.
pub fn try_decrypt_vault(enc: &EncFile, password: &str) -> (res: Option<
    Result<Vec<u8>, VaultError>,
>)
    ensures
        res is Some <==> decryptable(enc@, password@),
        match res {
            Some(Ok(message)) => {
                &&& decrypted(enc@, password@) == Ok::<Seq<u8>, ErrorView>(message@)
                &&& seals(enc@, password@, message@)
            },
            Some(Err(e)) => decrypted(enc@, password@) == Err::<Seq<u8>, ErrorView>(e@),
            None => true,
        },
{
    match decode_parts(enc) {
        Err(e) => Some(Err(e)),
        Ok((salt, nonce, cipher)) => {
            let params = ArgonParams {
                m_cost: enc.m_cost,
                t_cost: enc.t_cost,
                p_cost: enc.p_cost,
            };
            if (params.m_cost as u64) * 1024 > isize::MAX as u64 {
                return None;
            }
            if nonce.len() == NONCE_LEN && !refuses(password, salt.as_slice(), &params) {
                let n: u64 = cipher.len() as u64;
                let fits: bool = n <= 0xFFFF_FFFE * 64 + 16 || (n - 16) / 64 >= 0xFFFF_FFFF;
                if !fits {
                    return None;
                }
            }
            Some(decrypt_vault(enc, password))
        },
    }
}

// ---------------------------------------------------------------------------
// Files and identifiers
// ---------------------------------------------------------------------------

/// The permission bits that keep a directory or a file to its owner.
pub open spec fn owner_only_mode(is_dir: bool) -> u32 {
    if is_dir {
        0o700
    } else {
        0o600
    }
}

/// The permission bits that restrict a file or a directory to its owner.
pub fn restrict_permissions(is_dir: bool) -> (mode: u32)
    ensures
        mode == owner_only_mode(is_dir),
        mode == if is_dir {
            0o700u32
        } else {
            0o600u32
        },
{
    if is_dir {
        0o700
    } else {
        0o600
    }
}

/// What has to be written to save a serialised vault: the encrypted file, and
/// the permission bits it is to have.
pub fn save_vault_file(message: &[u8], password: &str) -> (res: Result<(EncFile, u32), VaultError>)
    requires
        sealable(message@.len()),
    ensures
        match res {
            Ok((file, mode)) => {
                &&& mode == owner_only_mode(false)
                &&& mode == 0o600
                &&& exists|salt: Seq<u8>, nonce: Seq<u8>|
                    salt.len() == 16 && nonce.len() == NONCE_LEN && #[trigger] encrypted(
                        message@,
                        password@,
                        salt,
                        nonce,
                    ) == Ok::<EncFileView, ErrorView>(file@)
                &&& holds_sealed(file@, message@.len() + 16)
                &&& decryptable(file@, password@)
                &&& decrypted(file@, password@) == Ok::<Seq<u8>, ErrorView>(message@)
            },
            Err(e) => e@ == (if encode_utf8(password@).len() > 0xFFFF_FFFF {
                ErrorView::Crypto("KDF failed: "@ + "password is too long"@)
            } else {
                ErrorView::Crypto("Encryption failed"@)
            }),
        },
        res is Err <==> encode_utf8(password@).len() > 0xFFFF_FFFF || message_too_long(
            message@.len() as int,
        ),
{
    match encrypt_vault(message, password) {
        Ok(file) => Ok((file, restrict_permissions(false))),
        Err(e) => Err(e),
    }
}

/// The text of an identifier: sixteen bytes in URL-safe base64.
pub open spec fn is_id(t: Seq<char>) -> bool {
    exists|b: Seq<u8>| b.len() == 16 && #[trigger] url_safe_text(b) == t
}

/// The identifier made of sixteen bytes.
pub fn id_of_bytes(bytes: &[u8]) -> (res: String)
    requires
        bytes@.len() == 16,
    ensures
        res@ == url_safe_text(bytes@),
        res@.len() == 22,
{
    proof {
        law_url_safe_text_of_sixteen(bytes@);
    }
    encode_url_safe(bytes)
}

/// A fresh identifier for an entry or a note.
pub fn gen_id() -> (res: String)
    ensures
        is_id(res@),
        exists|b: Seq<u8>| b.len() == 16 && #[trigger] url_safe_text(b) == res@,
        res@.len() == 22,
{
    let bytes: Vec<u8> = random_bytes(16);
    id_of_bytes(bytes.as_slice())
}

// ---------------------------------------------------------------------------
// Laws
// ---------------------------------------------------------------------------

/// Whether a file decodes does not depend on the password, and a file that does
/// not is refused with the same words for every password.
pub proof fn law_broken_file_refused(enc: EncFileView, a: Seq<char>, b: Seq<char>)
    requires
        !file_decodes(enc),
    ensures
        decryptable(enc, a),
        decrypted(enc, a) is Err,
        decrypted(enc, a) == decrypted(enc, b),
{
}

/// A file with another mark at its head is refused as such, whatever else it holds.
pub proof fn law_foreign_file_refused(enc: EncFileView, password: Seq<char>)
    requires
        enc.magic != MAGIC@,
    ensures
        decryptable(enc, password),
        decrypted(enc, password) == Err::<Seq<u8>, ErrorView>(ErrorView::Msg("Bad file magic"@)),
{
}

/// A file whose nonce was cut or lengthened is never read.
pub proof fn law_nonce_of_other_length_refused(enc: EncFileView, password: Seq<char>)
    requires
        is_standard_text(enc.nonce_b64),
        standard_bytes(enc.nonce_b64).unwrap().len() != NONCE_LEN,
    ensures
        decrypted(enc, password) is Err,
{
}

/// The cipher takes the ciphertext of the file as genuine under the password.
pub open spec fn opens(enc: EncFileView, password: Seq<char>) -> bool {
    &&& file_decodes(enc)
    &&& standard_bytes(enc.nonce_b64).unwrap().len() == NONCE_LEN
    &&& derived_key(password, standard_bytes(enc.salt_b64).unwrap(), file_params(enc)) matches Ok(
        key,
    )
    &&& aead_opened(
        key,
        standard_bytes(enc.nonce_b64).unwrap(),
        standard_bytes(enc.cipher_b64).unwrap(),
    ) is Some
}

/// Nothing is read from a file that the cipher does not take as genuine: whatever
/// part of it was changed, and whatever password is tried, decryption succeeds
/// exactly if the cipher opens the ciphertext under the key made of both.
pub proof fn law_only_genuine_files_are_read(enc: EncFileView, password: Seq<char>)
    ensures
        decrypted(enc, password) is Ok <==> opens(enc, password),
{
}

/// A password under which an intact file does not open is refused with the stated
/// words, as long as it is not too long to be tried.
pub proof fn law_wrong_password_refused(
    enc: EncFileView,
    password: Seq<char>,
    other: Seq<char>,
)
    requires
        decrypted(enc, password) is Ok,
        !opens(enc, other),
        encode_utf8(other).len() <= 0xFFFF_FFFF,
    ensures
        decrypted(enc, other) == Err::<Seq<u8>, ErrorView>(
            ErrorView::Msg("Decryption failed (wrong password?)"@),
        ),
{
}

/// Tampering shows: of all files that differ in their ciphertext alone, one at most
/// holds a given message, so that a file whose ciphertext was altered no longer
/// gives the message it was made of.
pub proof fn law_altered_file_loses_its_message(
    a: EncFileView,
    b: EncFileView,
    password: Seq<char>,
    message: Seq<u8>,
)
    requires
        a == (EncFileView { cipher_b64: a.cipher_b64, ..b }),
        a.cipher_b64 != b.cipher_b64,
        seals(a, password, message),
    ensures
        !seals(b, password, message),
{
    assert(file_params(a) == file_params(b));
}

/// What is sealed under the costs of new files is what encryption makes of it with
/// the salt and the nonce of the file.
pub proof fn law_sealed_file_is_an_encryption(
    enc: EncFileView,
    password: Seq<char>,
    message: Seq<u8>,
)
    requires
        seals(enc, password, message),
        file_params(enc) == kdf_params(),
        !message_too_long(message.len() as int),
    ensures
        encrypted(
            message,
            password,
            standard_bytes(enc.salt_b64).unwrap(),
            standard_bytes(enc.nonce_b64).unwrap(),
        ) == Ok::<EncFileView, ErrorView>(enc),
{
    let salt = choose|b: Seq<u8>| #[trigger] standard_text(b) == enc.salt_b64;
    let nonce = choose|b: Seq<u8>| #[trigger] standard_text(b) == enc.nonce_b64;
    law_standard_round_trip(salt);
    law_standard_round_trip(nonce);
    assert(encrypted(message, password, salt, nonce)->Ok_0 =~= enc);
}

/// The costs of new files are accepted, so that only the length of the password
/// or of the vault can stop a save.
pub proof fn law_standard_costs_accepted(password: Seq<char>, salt: Seq<u8>)
    requires
        salt.len() == 16,
        encode_utf8(password).len() <= 0xFFFF_FFFF,
    ensures
        kdf_runs(kdf_params()),
        derived_key(password, salt, kdf_params()) is Ok,
{
}

/// The key is the Argon2id key of the whole password, of the whole salt and of the
/// costs as they are, wherever Argon2id takes them.
pub proof fn law_key_of_whole_password(password: Seq<char>, salt: Seq<u8>, p: ArgonParams)
    requires
        8 <= p.m_cost,
        p.p_cost * 8 <= p.m_cost,
        1 <= p.t_cost,
        1 <= p.p_cost <= 0xFF_FFFF,
        8 <= salt.len() <= 0xFFFF_FFFF,
        encode_utf8(password).len() <= 0xFFFF_FFFF,
    ensures
        derived_key(password, salt, p) == Ok::<Seq<u8>, ErrorView>(
            argon2id_key(encode_utf8(password), salt, p.m_cost, p.t_cost, p.p_cost),
        ),
{
}

/// Where Argon2id does not take the costs, the salt or the password, the first thing
/// wrong is named.
pub proof fn law_refused_key_named(password: Seq<char>, salt: Seq<u8>, p: ArgonParams)
    ensures
        ({
            let r = derived_key(password, salt, p);
            let costs = |text: Seq<char>|
                Err::<Seq<u8>, ErrorView>(ErrorView::Crypto("Argon2 params error: "@ + text));
            let hash = |text: Seq<char>|
                Err::<Seq<u8>, ErrorView>(ErrorView::Crypto("KDF failed: "@ + text));
            let memory = 8 <= p.m_cost && p.p_cost * 8 <= p.m_cost;
            let taken = memory && 1 <= p.t_cost && 1 <= p.p_cost <= 0xFF_FFFF;
            let short = encode_utf8(password).len() <= 0xFFFF_FFFF;
            &&& !memory ==> r == costs("memory cost is too small"@)
            &&& memory && p.t_cost == 0 ==> r == costs("time cost is too small"@)
            &&& memory && p.t_cost > 0 && p.p_cost == 0 ==> r == costs("not enough threads"@)
            &&& memory && p.t_cost > 0 && p.p_cost > 0xFF_FFFF ==> r == costs(
                "too many threads"@,
            )
            &&& taken && !short ==> r == hash("password is too long"@)
            &&& taken && short && salt.len() < 8 ==> r == hash("salt is too short"@)
            &&& taken && short && salt.len() > 0xFFFF_FFFF ==> r == hash("salt is too long"@)
        }),
{
}

/// Encrypting seals the whole message under the Argon2id key of the whole password,
/// with 64 MiB of memory, three passes and one lane, and the file says so.
pub proof fn law_encryption_exact(
    message: Seq<u8>,
    password: Seq<char>,
    salt: Seq<u8>,
    nonce: Seq<u8>,
)
    requires
        salt.len() == 16,
        encode_utf8(password).len() <= 0xFFFF_FFFF,
        message.len() < 0xFFFF_FFFF * 64,
    ensures
        encrypted(message, password, salt, nonce) == Ok::<EncFileView, ErrorView>(
            EncFileView {
                magic: "RV_GUI_V1"@,
                salt_b64: standard_text(salt),
                nonce_b64: standard_text(nonce),
                cipher_b64: standard_text(
                    aead_sealed(
                        argon2id_key(encode_utf8(password), salt, 65536, 3, 1),
                        nonce,
                        message,
                    ),
                ),
                m_cost: 65536,
                t_cost: 3,
                p_cost: 1,
            },
        ),
{
}

/// Decrypting opens the whole ciphertext under the Argon2id key that the whole
/// password and the salt and costs of the file make, and gives the message that is
/// in it, or says that the password may be wrong.
pub proof fn law_decryption_exact(
    enc: EncFileView,
    password: Seq<char>,
    salt: Seq<u8>,
    nonce: Seq<u8>,
    cipher: Seq<u8>,
)
    requires
        enc.magic == "RV_GUI_V1"@,
        enc.salt_b64 == standard_text(salt),
        enc.nonce_b64 == standard_text(nonce),
        enc.cipher_b64 == standard_text(cipher),
        8 <= enc.m_cost,
        enc.p_cost * 8 <= enc.m_cost,
        1 <= enc.t_cost,
        1 <= enc.p_cost <= 0xFF_FFFF,
        8 <= salt.len() <= 0xFFFF_FFFF,
        encode_utf8(password).len() <= 0xFFFF_FFFF,
    ensures
        nonce.len() != 24 ==> decrypted(enc, password) == Err::<Seq<u8>, ErrorView>(
            ErrorView::Msg("Bad nonce"@),
        ),
        nonce.len() == 24 ==> decrypted(enc, password) == (match aead_opened(
            argon2id_key(encode_utf8(password), salt, enc.m_cost, enc.t_cost, enc.p_cost),
            nonce,
            cipher,
        ) {
            Some(message) => Ok::<Seq<u8>, ErrorView>(message),
            None => Err(ErrorView::Msg("Decryption failed (wrong password?)"@)),
        }),
{
    law_standard_round_trip(salt);
    law_standard_round_trip(nonce);
    law_standard_round_trip(cipher);
}

/// The first part of a file that is not in base64 is named.
pub proof fn law_broken_part_named(enc: EncFileView, password: Seq<char>)
    requires
        enc.magic == "RV_GUI_V1"@,
    ensures
        ({
            let r = decrypted(enc, password);
            let decodes = |t: Seq<char>| exists|b: Seq<u8>| #[trigger] standard_text(b) == t;
            &&& !decodes(enc.salt_b64) ==> r == Err::<Seq<u8>, ErrorView>(
                ErrorView::Msg("Bad salt"@),
            )
            &&& decodes(enc.salt_b64) && !decodes(enc.nonce_b64) ==> r == Err::<
                Seq<u8>,
                ErrorView,
            >(ErrorView::Msg("Bad nonce"@))
            &&& decodes(enc.salt_b64) && decodes(enc.nonce_b64) && !decodes(enc.cipher_b64)
                ==> r == Err::<Seq<u8>, ErrorView>(ErrorView::Msg("Bad ciphertext"@))
        }),
{
}

/// A file is opened by exactly the passwords whose keys open its ciphertext: what one
/// password reads, another reads only if its own Argon2id key opens the file too.
pub proof fn law_password_is_the_key(
    enc: EncFileView,
    password: Seq<char>,
    other: Seq<char>,
    salt: Seq<u8>,
    nonce: Seq<u8>,
    cipher: Seq<u8>,
)
    requires
        enc.salt_b64 == standard_text(salt),
        enc.nonce_b64 == standard_text(nonce),
        enc.cipher_b64 == standard_text(cipher),
        decrypted(enc, password) is Ok,
        decrypted(enc, other) is Ok,
    ensures
        aead_opened(
            argon2id_key(encode_utf8(password), salt, enc.m_cost, enc.t_cost, enc.p_cost),
            nonce,
            cipher,
        ) is Some,
        aead_opened(
            argon2id_key(encode_utf8(other), salt, enc.m_cost, enc.t_cost, enc.p_cost),
            nonce,
            cipher,
        ) is Some,
{
    law_standard_round_trip(salt);
    law_standard_round_trip(nonce);
    law_standard_round_trip(cipher);
}

/// What an ordinary machine can do is never turned away: a vault of up to a gigabyte
/// can be sealed, and a file whose memory can be addressed and whose ciphertext is
/// under 256 GiB can be decrypted.
pub proof fn law_ordinary_sizes_are_taken(
    n: nat,
    enc: EncFileView,
    password: Seq<char>,
    cipher: Seq<u8>,
)
    requires
        enc.cipher_b64 == standard_text(cipher),
        cipher.len() <= 0xFFFF_FFFE * 64,
        enc.m_cost * 1024 <= isize::MAX,
    ensures
        n <= 0x4000_0000 ==> sealable(n),
        decryptable(enc, password),
{
    law_standard_round_trip(cipher);
}

} // verus!

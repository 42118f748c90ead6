use zeropass::crypto::{
    decrypt_vault, derive_key, encrypt_vault, encrypt_with, gen_id, id_of_bytes, is_sealable,
    restrict_permissions, save_vault_file, try_decrypt_vault, ArgonParams, KDF_M_COST, KDF_P_COST,
    KDF_T_COST, MAGIC,
};
use zeropass::model::{EncFile, VaultError};

fn sample() -> EncFile {
    encrypt_with(b"{\"entries\":[]}", "correct horse", &[7u8; 16], &[9u8; 24]).unwrap()
}

fn message_of(r: Result<Vec<u8>, VaultError>) -> String {
    match r {
        Ok(_) => panic!("expected an error"),
        Err(e) => e.message(),
    }
}

#[test]
fn encrypted_file_reads_back() {
    let message = b"{\"entries\":[],\"notes\":[]}".to_vec();
    let file = encrypt_vault(&message, "correct horse").unwrap();
    assert_eq!(file.magic, MAGIC);
    assert_eq!((file.m_cost, file.t_cost, file.p_cost), (KDF_M_COST, KDF_T_COST, KDF_P_COST));
    assert_ne!(file.cipher_b64, "");
    assert_eq!(decrypt_vault(&file, "correct horse").unwrap(), message);
}

#[test]
fn empty_message_reads_back() {
    let file = encrypt_vault(&[], "").unwrap();
    assert_eq!(decrypt_vault(&file, "").unwrap(), Vec::<u8>::new());
}

#[test]
fn every_save_is_different() {
    let a = encrypt_vault(b"same", "same password").unwrap();
    let b = encrypt_vault(b"same", "same password").unwrap();
    assert_ne!(a.salt_b64, b.salt_b64);
    assert_ne!(a.nonce_b64, b.nonce_b64);
    assert_ne!(a.cipher_b64, b.cipher_b64);
}

#[test]
fn given_salt_and_nonce_stand_in_the_file() {
    let file = encrypt_with(b"x", "password", &[0u8; 16], &[0xffu8; 24]).unwrap();
    assert_eq!(file.salt_b64, "AAAAAAAAAAAAAAAAAAAAAA==");
    assert_eq!(file.nonce_b64, "////////////////////////////////");
    // One byte of message and sixteen of tag, in base64.
    assert_eq!(file.cipher_b64.len(), 24);
    assert!(file.cipher_b64.ends_with('='));
    assert!(!file.cipher_b64.ends_with("=="));
    let again = encrypt_with(b"x", "password", &[0u8; 16], &[0xffu8; 24]).unwrap();
    assert_eq!(file.cipher_b64, again.cipher_b64);
}

#[test]
fn wrong_password_is_refused() {
    let e = message_of(decrypt_vault(&sample(), "incorrect horse"));
    assert_eq!(e, "Decryption failed (wrong password?)");
}

#[test]
fn changed_ciphertext_is_refused() {
    let mut file = sample();
    let first = if file.cipher_b64.starts_with('A') { "B" } else { "A" };
    file.cipher_b64 = format!("{}{}", first, &file.cipher_b64[1..]);
    let e = message_of(decrypt_vault(&file, "correct horse"));
    assert_eq!(e, "Decryption failed (wrong password?)");
}

#[test]
fn short_ciphertext_is_refused() {
    let mut file = cheap();
    file.cipher_b64 = "AAAA".to_string();
    let e = message_of(decrypt_vault(&file, "correct horse"));
    assert_eq!(e, "Decryption failed (wrong password?)");
}

#[test]
fn broken_parts_are_named() {
    let mut file = cheap();
    file.cipher_b64 = "*".to_string();
    assert_eq!(message_of(decrypt_vault(&file, "p")), "Bad ciphertext");
    file.nonce_b64 = "AAA".to_string();
    assert_eq!(message_of(decrypt_vault(&file, "p")), "Bad nonce");
    // The last letter carries stray bits.
    file.salt_b64 = "AB==".to_string();
    assert_eq!(message_of(decrypt_vault(&file, "p")), "Bad salt");
    file.magic = "RV_GUI_V2".to_string();
    assert_eq!(message_of(decrypt_vault(&file, "p")), "Bad file magic");
}

#[test]
fn refused_costs_and_salts_are_named() {
    let mut file = cheap();
    file.m_cost = 7;
    assert_eq!(
        message_of(decrypt_vault(&file, "p")),
        "Crypto error: Argon2 params error: memory cost is too small"
    );
    file.m_cost = 8;
    file.p_cost = 2;
    assert_eq!(
        message_of(decrypt_vault(&file, "p")),
        "Crypto error: Argon2 params error: memory cost is too small"
    );
    file.p_cost = 1;
    file.t_cost = 0;
    assert_eq!(
        message_of(decrypt_vault(&file, "p")),
        "Crypto error: Argon2 params error: time cost is too small"
    );
    file.t_cost = 1;
    file.p_cost = 0;
    assert_eq!(
        message_of(decrypt_vault(&file, "p")),
        "Crypto error: Argon2 params error: not enough threads"
    );
    file.m_cost = u32::MAX;
    file.p_cost = 0x0100_0000;
    assert_eq!(
        message_of(decrypt_vault(&file, "p")),
        "Crypto error: Argon2 params error: too many threads"
    );
    file.m_cost = 8;
    file.p_cost = 1;
    file.salt_b64 = "AAAA".to_string();
    assert_eq!(
        message_of(decrypt_vault(&file, "p")),
        "Crypto error: KDF failed: salt is too short"
    );
}

/// A file that asks for little work; nothing decrypts it.
fn cheap() -> EncFile {
    EncFile {
        magic: MAGIC.to_string(),
        salt_b64: "AAAAAAAAAAAAAAAAAAAAAA==".to_string(),
        nonce_b64: "AAAAAAAAAAAAAAAAAAAAAAAAAAAAAAAA".to_string(),
        cipher_b64: "AAAAAAAAAAAAAAAAAAAAAAAA".to_string(),
        m_cost: 8,
        t_cost: 1,
        p_cost: 1,
    }
}

#[test]
fn nonces_of_other_lengths_are_refused() {
    for nonce in ["", "AAAA", "AAAAAAAAAAAAAAAAAAAAAAAAAAAAAAA=", "AAAAAAAAAAAAAAAAAAAAAAAAAAAAAAAAAA=="] {
        let mut file = cheap();
        file.nonce_b64 = nonce.to_string();
        assert_eq!(message_of(decrypt_vault(&file, "p")), "Bad nonce");
        assert_eq!(message_of(try_decrypt_vault(&file, "p").unwrap()), "Bad nonce");
    }
    // The costs are refused before the nonce is looked at.
    let mut file = cheap();
    file.nonce_b64 = "AAAA".to_string();
    file.t_cost = 0;
    assert_eq!(
        message_of(decrypt_vault(&file, "p")),
        "Crypto error: Argon2 params error: time cost is too small"
    );
}

#[test]
fn files_from_anywhere_are_refused_in_words() {
    let failed = "Decryption failed (wrong password?)";
    assert_eq!(message_of(try_decrypt_vault(&cheap(), "p").unwrap()), failed);
    let mut file = cheap();
    file.p_cost = 0x2000_0000;
    assert_eq!(
        message_of(try_decrypt_vault(&file, "p").unwrap()),
        "Crypto error: Argon2 params error: memory cost is too small"
    );
    file.magic = String::new();
    assert_eq!(message_of(try_decrypt_vault(&file, "p").unwrap()), "Bad file magic");
}

#[test]
fn ciphertext_is_sixteen_bytes_longer() {
    let file = encrypt_vault(&[7u8; 29], "password").unwrap();
    // Forty-five bytes in base64, without padding.
    assert_eq!(file.cipher_b64.len(), 60);
    assert!(!file.cipher_b64.ends_with('='));
}

#[test]
fn checked_decryption_decrypts() {
    assert_eq!(
        try_decrypt_vault(&sample(), "correct horse").unwrap().unwrap(),
        b"{\"entries\":[]}".to_vec()
    );
}

#[test]
fn derived_key_of_the_reference() {
    let params = ArgonParams { m_cost: 65536, t_cost: 2, p_cost: 1 };
    let key = derive_key("password", b"somesalt", &params).unwrap();
    let hex: String = key.iter().map(|b| format!("{:02x}", b)).collect();
    assert_eq!(hex, "09316115d5cf24ed5a15a31a3ba326e5cf32edc24702987c02b6566f61913cf7");
}

#[test]
fn derived_key_depends_on_everything() {
    let p = ArgonParams { m_cost: 8, t_cost: 1, p_cost: 1 };
    let key = derive_key("password", &[1u8; 16], &p).unwrap();
    assert_eq!(derive_key("password", &[1u8; 16], &p).unwrap(), key);
    assert_ne!(derive_key("Password", &[1u8; 16], &p).unwrap(), key);
    assert_ne!(derive_key("password", &[2u8; 16], &p).unwrap(), key);
    let q = ArgonParams { t_cost: 2, ..p };
    assert_ne!(derive_key("password", &[1u8; 16], &q).unwrap(), key);
}

#[test]
fn saving_asks_for_owner_only_access() {
    let (file, mode) = save_vault_file(b"data", "password").unwrap();
    assert_eq!(mode, 0o600);
    assert_eq!(restrict_permissions(false), 0o600);
    assert_eq!(restrict_permissions(true), 0o700);
    assert_eq!(decrypt_vault(&file, "password").unwrap(), b"data".to_vec());
}

#[test]
fn identifiers() {
    assert_eq!(id_of_bytes(&[0u8; 16]), "AAAAAAAAAAAAAAAAAAAAAA");
    assert_eq!(id_of_bytes(&[0xffu8; 16]), "_____________________w");
    let a = gen_id();
    let b = gen_id();
    assert_eq!(a.len(), 22);
    assert_ne!(a, b);
    assert!(a.chars().all(|c| c.is_ascii_alphanumeric() || c == '-' || c == '_'));
}

#[test]
fn what_fits_in_a_file() {
    assert!(is_sealable(0));
    assert!(is_sealable(1 << 30));
    assert!(!is_sealable(usize::MAX));
}

#[test]
fn errors_in_words() {
    assert_eq!(VaultError::Io("gone".to_string()).message(), "IO error: gone");
    assert_eq!(VaultError::Serde("bad".to_string()).message(), "Serialization error: bad");
    assert_eq!(VaultError::Crypto("no".to_string()).message(), "Crypto error: no");
    assert_eq!(VaultError::Msg("so".to_string()).message(), "so");
}

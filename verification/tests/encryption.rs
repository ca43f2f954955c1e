use aes::cipher::{BlockEncrypt, BlockEncryptMut, KeyInit, KeyIvInit};
use pdfpurr::encryption::key::{
    algorithm_2b, compute_file_key_owner, compute_file_key_user, decrypt_aes256_cbc_no_pad,
    hash_r5, object_key, validate_owner_password_r5_r6, validate_user_password_r5_r6,
    EncryptionKey, PADDING,
};
use pdfpurr::encryption::rc4::rc4;
use pdfpurr::encryption::standard::{
    decrypt_aes_cbc, validate_perms, CryptAlgorithm, EncryptDict, EncryptionHandler, Permissions,
};
use pdfpurr::error::PdfError;
use pdfpurr::objects::{DictExt, Dictionary, Object, PdfName, PdfStream, PdfString, StringFormat};
use sha2::Digest;

// --- RC4 ---

#[test]
fn rc4_known_vector() {
    let key = [0x01, 0x02, 0x03, 0x04, 0x05];
    let plaintext = [0x00u8; 16];
    let ciphertext = rc4(&key, &plaintext);
    assert_eq!(
        ciphertext,
        [
            0xb2, 0x39, 0x63, 0x05, 0xf0, 0x3d, 0xc0, 0x27, 0xcc, 0xc3, 0x52, 0x4a, 0x0a, 0x11,
            0x18, 0xa8
        ]
    );
}

#[test]
fn rc4_round_trip() {
    let key = b"test key";
    let plaintext = b"Hello, PDF encryption!";
    let ciphertext = rc4(key, plaintext);
    let decrypted = rc4(key, &ciphertext);
    assert_eq!(decrypted, plaintext);
}

#[test]
fn rc4_empty_data() {
    let result = rc4(b"key", &[]);
    assert!(result.is_empty());
}

#[test]
fn rc4_empty_key_returns_data_unchanged() {
    let data = b"some data";
    let result = rc4(&[], data);
    assert_eq!(result, data);
}

#[test]
fn rc4_empty_key_empty_data() {
    let result = rc4(&[], &[]);
    assert!(result.is_empty());
}

#[test]
fn rc4_keeps_length_and_changes_data() {
    let data = b"0123456789";
    let out = rc4(b"Key", data);
    assert_eq!(out.len(), data.len());
    assert_ne!(out, data);
    // "Key" / "Plaintext" test vector.
    assert_eq!(
        rc4(b"Key", b"Plaintext"),
        vec![0xBB, 0xF3, 0x16, 0xE8, 0xD9, 0x40, 0xAF, 0x0A, 0xD3]
    );
}

// --- key derivation ---

#[test]
fn padding_is_32_bytes() {
    assert_eq!(PADDING.len(), 32);
}

#[test]
fn object_key_derivation() {
    let file_key = vec![0x01, 0x02, 0x03, 0x04, 0x05];
    let key = object_key(&file_key, 10, 0, false);
    assert_eq!(key.len(), 10);
}

#[test]
fn object_key_aes_derivation() {
    let file_key = vec![0x01, 0x02, 0x03, 0x04, 0x05];
    let key = object_key(&file_key, 10, 0, true);
    assert_eq!(key.len(), 10);
    let rc4_key = object_key(&file_key, 10, 0, false);
    assert_ne!(key, rc4_key);
}

#[test]
fn object_key_is_md5_prefix() {
    let file_key = [0x01, 0x02, 0x03, 0x04, 0x05];
    let mut input = file_key.to_vec();
    input.extend_from_slice(&[0x0A, 0x00, 0x00, 0x00, 0x00]);
    let digest = md5::compute(&input).0;
    assert_eq!(object_key(&file_key, 10, 0, false), digest[..10].to_vec());
    let long_key = [0x07u8; 16];
    assert_eq!(object_key(&long_key, 1, 2, false).len(), 16);
}

#[test]
fn compute_key_r2() {
    let o_value = [0u8; 32];
    let id = b"test-file-id";
    let key = EncryptionKey::compute_r2_r4(b"", &o_value, -4, id, 40, 2, true).unwrap();
    assert_eq!(key.key.len(), 5);
}

#[test]
fn compute_key_r2_is_md5_of_input() {
    let o_value = [0u8; 32];
    let id = b"test-file-id";
    let key = EncryptionKey::compute_r2_r4(b"", &o_value, -4, id, 40, 2, true).unwrap();
    let mut input = PADDING.to_vec();
    input.extend_from_slice(&o_value);
    input.extend_from_slice(&(-4i32 as u32).to_le_bytes());
    input.extend_from_slice(id);
    let digest = md5::compute(&input).0;
    assert_eq!(key.key, digest[..5].to_vec());
}

#[test]
fn validate_password_round_trip_r2() {
    let o_value = [0u8; 32];
    let id = b"test-file-id";
    let key = EncryptionKey::compute_r2_r4(b"", &o_value, -4, id, 40, 2, true).unwrap();
    let u_value = rc4(&key.key, &PADDING);
    assert!(key.validate_user_password_r2_r4(&u_value, id, 2));
    assert!(!key.validate_user_password_r2_r4(&u_value, id, 7));
}

#[test]
fn validate_password_round_trip_r3() {
    let o_value = [0x5Au8; 32];
    let id = b"another-id";
    let key = EncryptionKey::compute_r2_r4(b"user", &o_value, -44, id, 128, 3, true).unwrap();
    assert_eq!(key.key.len(), 16);
    // Algorithm 5 by hand.
    let mut input = PADDING.to_vec();
    input.extend_from_slice(id);
    let mut u = rc4(&key.key, &md5::compute(&input).0);
    for i in 1..=19u8 {
        let k: Vec<u8> = key.key.iter().map(|b| b ^ i).collect();
        u = rc4(&k, &u);
    }
    u.extend_from_slice(&[0u8; 16]);
    assert!(key.validate_user_password_r2_r4(&u, id, 3));
    u[0] ^= 1;
    assert!(!key.validate_user_password_r2_r4(&u, id, 3));
}

fn encrypt_aes256_no_pad(key: &[u8], iv: &[u8], plaintext: &[u8]) -> Vec<u8> {
    let encryptor = cbc::Encryptor::<aes::Aes256>::new_from_slices(key, iv).unwrap();
    let mut buf = plaintext.to_vec();
    let len = buf.len();
    encryptor
        .encrypt_padded_mut::<aes::cipher::block_padding::NoPadding>(&mut buf, len)
        .unwrap();
    buf
}

fn build_r5_u_value(password: &[u8], validation_salt: &[u8; 8], key_salt: &[u8; 8]) -> Vec<u8> {
    let mut u = hash_r5(password, validation_salt, &[]);
    u.extend_from_slice(validation_salt);
    u.extend_from_slice(key_salt);
    u
}

#[test]
fn r5_user_password_valid() {
    let u = build_r5_u_value(b"secret", &[0x11; 8], &[0x22; 8]);
    assert!(validate_user_password_r5_r6(b"secret", &u, 5));
}

#[test]
fn r5_user_password_wrong() {
    let u = build_r5_u_value(b"secret", &[0x11; 8], &[0x22; 8]);
    assert!(!validate_user_password_r5_r6(b"wrong", &u, 5));
}

#[test]
fn r5_user_password_truncated_u() {
    assert!(!validate_user_password_r5_r6(b"", &[0u8; 40], 5));
}

#[test]
fn r5_password_truncated_to_127_bytes() {
    let long = [b'a'; 200];
    let u = build_r5_u_value(&long[..127], &[0x11; 8], &[0x22; 8]);
    assert!(validate_user_password_r5_r6(&long, &u, 5));
}

#[test]
fn r5_owner_password_valid() {
    let u_value = [0xAA; 48];
    let vsalt = [0x33; 8];
    let ksalt = [0x44; 8];
    let mut o = hash_r5(b"owner", &vsalt, &u_value);
    o.extend_from_slice(&vsalt);
    o.extend_from_slice(&ksalt);
    assert!(validate_owner_password_r5_r6(b"owner", &o, &u_value, 5));
}

#[test]
fn r5_owner_password_wrong() {
    let u_value = [0xAA; 48];
    let vsalt = [0x33; 8];
    let ksalt = [0x44; 8];
    let mut o = hash_r5(b"owner", &vsalt, &u_value);
    o.extend_from_slice(&vsalt);
    o.extend_from_slice(&ksalt);
    assert!(!validate_owner_password_r5_r6(b"not-owner", &o, &u_value, 5));
}

#[test]
fn r5_file_key_user_round_trip() {
    let password = b"test";
    let vsalt = [0x11; 8];
    let ksalt = [0x22; 8];
    let file_key = [0xFF; 32];
    let u_value = build_r5_u_value(password, &vsalt, &ksalt);
    let intermediate_key = hash_r5(password, &ksalt, &[]);
    let ue_value = encrypt_aes256_no_pad(&intermediate_key, &[0u8; 16], &file_key);
    let derived = compute_file_key_user(password, &u_value, &ue_value, 5).unwrap();
    assert_eq!(derived, file_key);
}

#[test]
fn r5_file_key_user_too_short() {
    match compute_file_key_user(b"", &[0u8; 47], &[0u8; 32], 5) {
        Err(PdfError::EncryptionError(m)) => assert_eq!(m, "R5/R6 /U or /UE too short"),
        other => panic!("unexpected {:?}", other),
    }
}

#[test]
fn r5_file_key_owner_round_trip() {
    let password = b"owner";
    let u_value = [0xBB; 48];
    let vsalt = [0x33; 8];
    let ksalt = [0x44; 8];
    let file_key = [0xEE; 32];
    let mut o_value = hash_r5(password, &vsalt, &u_value);
    o_value.extend_from_slice(&vsalt);
    o_value.extend_from_slice(&ksalt);
    let intermediate_key = hash_r5(password, &ksalt, &u_value);
    let oe_value = encrypt_aes256_no_pad(&intermediate_key, &[0u8; 16], &file_key);
    let derived = compute_file_key_owner(password, &o_value, &oe_value, &u_value, 5).unwrap();
    assert_eq!(derived, file_key);
}

#[test]
fn hash_r5_is_sha256_of_concatenation() {
    let expected = sha2::Sha256::digest(b"pwsaltextra").to_vec();
    assert_eq!(hash_r5(b"pw", b"salt", b"extra"), expected);
}

#[test]
fn algorithm_2b_deterministic() {
    let salt = [0x01, 0x02, 0x03, 0x04, 0x05, 0x06, 0x07, 0x08];
    let r1 = algorithm_2b(b"password", &salt, &[]);
    let r2 = algorithm_2b(b"password", &salt, &[]);
    assert_eq!(r1, r2);
    assert_eq!(r1.len(), 32);
}

#[test]
fn algorithm_2b_different_passwords_differ() {
    let salt = [0x01; 8];
    let r1 = algorithm_2b(b"pass1", &salt, &[]);
    let r2 = algorithm_2b(b"pass2", &salt, &[]);
    assert_ne!(r1, r2);
}

#[test]
fn algorithm_2b_with_u_value_differs() {
    let salt = [0x01; 8];
    let r1 = algorithm_2b(b"pass", &salt, &[]);
    let r2 = algorithm_2b(b"pass", &salt, &[0xAA; 48]);
    assert_ne!(r1, r2);
}

#[test]
fn algorithm_2b_empty_password() {
    let salt = [0u8; 8];
    let result = algorithm_2b(b"", &salt, &[]);
    assert_eq!(result.len(), 32);
}

#[test]
fn r6_user_password_round_trip() {
    let password = b"r6pass";
    let vsalt = [0x55; 8];
    let ksalt = [0x66; 8];
    let mut u_value = algorithm_2b(password, &vsalt, &[]);
    u_value.extend_from_slice(&vsalt);
    u_value.extend_from_slice(&ksalt);
    assert!(validate_user_password_r5_r6(password, &u_value, 6));
    assert!(!validate_user_password_r5_r6(b"wrong", &u_value, 6));
}

#[test]
fn r6_file_key_user_round_trip() {
    let password = b"r6key";
    let vsalt = [0x77; 8];
    let ksalt = [0x88; 8];
    let file_key = [0xDD; 32];
    let mut u_value = algorithm_2b(password, &vsalt, &[]);
    u_value.extend_from_slice(&vsalt);
    u_value.extend_from_slice(&ksalt);
    let intermediate_key = algorithm_2b(password, &ksalt, &[]);
    let ue_value = encrypt_aes256_no_pad(&intermediate_key, &[0u8; 16], &file_key);
    let derived = compute_file_key_user(password, &u_value, &ue_value, 6).unwrap();
    assert_eq!(derived, file_key);
}

#[test]
fn decrypt_aes256_cbc_no_pad_round_trip() {
    let key = [0xAB; 32];
    let iv = [0x00; 16];
    let plaintext = [0x42; 32];
    let ciphertext = encrypt_aes256_no_pad(&key, &iv, &plaintext);
    let decrypted = decrypt_aes256_cbc_no_pad(&key, &iv, &ciphertext).unwrap();
    assert_eq!(decrypted, plaintext);
}

#[test]
fn decrypt_aes256_cbc_no_pad_misaligned() {
    let result = decrypt_aes256_cbc_no_pad(&[0; 32], &[0; 16], &[0; 15]);
    assert!(result.is_err());
}

#[test]
fn decrypt_aes256_cbc_no_pad_bad_key() {
    match decrypt_aes256_cbc_no_pad(&[0; 31], &[0; 16], &[0; 16]) {
        Err(PdfError::EncryptionError(m)) => assert!(m.starts_with("AES-256 init: ")),
        other => panic!("unexpected {:?}", other),
    }
}

// --- standard security handler ---

#[test]
fn permissions_parsing() {
    let perms = Permissions { flags: -4 };
    assert!(perms.can_print());
    assert!(perms.can_modify());
    assert!(perms.can_extract());
    assert!(perms.can_annotate());
}

#[test]
fn permissions_restricted() {
    let perms = Permissions { flags: 4 };
    assert!(perms.can_print());
    assert!(!perms.can_modify());
    assert!(!perms.can_extract());
    assert!(!perms.can_annotate());
}

fn encrypt_cbc_pkcs7_128(key: &[u8], iv: &[u8], plaintext: &[u8; 16]) -> Vec<u8> {
    let encryptor = cbc::Encryptor::<aes::Aes128>::new_from_slices(key, iv).unwrap();
    let mut buf = [0u8; 32];
    buf[..16].copy_from_slice(plaintext);
    let ct = encryptor
        .encrypt_padded_mut::<aes::cipher::block_padding::Pkcs7>(&mut buf, 16)
        .unwrap();
    let mut data = iv.to_vec();
    data.extend_from_slice(ct);
    data
}

fn encrypt_cbc_pkcs7_256(key: &[u8], iv: &[u8], plaintext: &[u8; 16]) -> Vec<u8> {
    let encryptor = cbc::Encryptor::<aes::Aes256>::new_from_slices(key, iv).unwrap();
    let mut buf = [0u8; 32];
    buf[..16].copy_from_slice(plaintext);
    let ct = encryptor
        .encrypt_padded_mut::<aes::cipher::block_padding::Pkcs7>(&mut buf, 16)
        .unwrap();
    let mut data = iv.to_vec();
    data.extend_from_slice(ct);
    data
}

#[test]
fn aes128_round_trip() {
    let key = [0x42u8; 16];
    let iv = [0x00u8; 16];
    let plaintext = b"Hello, AES-128!!";
    let data = encrypt_cbc_pkcs7_128(&key, &iv, plaintext);
    let decrypted = decrypt_aes_cbc(false, &key, &data).unwrap();
    assert_eq!(decrypted, plaintext);
}

#[test]
fn aes128_too_short() {
    let result = decrypt_aes_cbc(false, &[0u8; 16], &[0u8; 8]);
    assert!(result.is_err());
}

#[test]
fn aes_cbc_error_messages() {
    match decrypt_aes_cbc(false, &[0u8; 16], &[0u8; 8]) {
        Err(PdfError::EncryptionError(m)) => assert_eq!(m, "AES data too short for IV"),
        other => panic!("unexpected {:?}", other),
    }
    match decrypt_aes_cbc(false, &[0u8; 16], &[0u8; 16]) {
        Err(PdfError::EncryptionError(m)) => assert_eq!(m, "AES ciphertext not block-aligned"),
        other => panic!("unexpected {:?}", other),
    }
    match decrypt_aes_cbc(true, &[0u8; 16], &[0u8; 32]) {
        Err(PdfError::EncryptionError(m)) => assert!(m.starts_with("AES init: ")),
        other => panic!("unexpected {:?}", other),
    }
}

fn build_perms(file_key: &[u8], p_value: i32, encrypt_meta: bool) -> Vec<u8> {
    let mut plaintext = [0u8; 16];
    plaintext[0..4].copy_from_slice(&(p_value as u32).to_le_bytes());
    plaintext[4..8].copy_from_slice(&[0xFF, 0xFF, 0xFF, 0xFF]);
    plaintext[8] = if encrypt_meta { b'T' } else { b'F' };
    plaintext[9..12].copy_from_slice(b"adb");
    let cipher = aes::Aes256::new(aes::cipher::generic_array::GenericArray::from_slice(file_key));
    let mut block = aes::cipher::generic_array::GenericArray::clone_from_slice(&plaintext);
    cipher.encrypt_block(&mut block);
    block.to_vec()
}

#[test]
fn validate_perms_valid() {
    let file_key = [0xAB; 32];
    let perms = build_perms(&file_key, -4, true);
    assert!(validate_perms(&file_key, &perms, -4).is_ok());
}

#[test]
fn validate_perms_wrong_key() {
    let file_key = [0xAB; 32];
    let perms = build_perms(&file_key, -4, true);
    assert!(validate_perms(&[0xCD; 32], &perms, -4).is_err());
}

#[test]
fn validate_perms_too_short() {
    assert!(validate_perms(&[0; 32], &[0; 8], -4).is_err());
}

#[test]
fn validate_perms_p_mismatch() {
    let file_key = [0xAB; 32];
    let perms = build_perms(&file_key, -4, true);
    assert!(validate_perms(&file_key, &perms, -100).is_err());
}

#[test]
fn validate_perms_p_mismatch_message() {
    let file_key = [0xAB; 32];
    let perms = build_perms(&file_key, -4, false);
    match validate_perms(&file_key, &perms, -100) {
        Err(PdfError::EncryptionError(m)) => {
            assert_eq!(m, "/Perms P value mismatch: expected -100, got -4")
        }
        other => panic!("unexpected {:?}", other),
    }
}

fn empty_dict() -> EncryptDict {
    EncryptDict {
        r: None,
        v: None,
        length: None,
        p: None,
        o: None,
        u: None,
        ue: None,
        oe: None,
        perms: None,
        encrypt_metadata: None,
        std_cf_cfm: None,
    }
}

#[test]
fn from_dict_missing_r() {
    let dict = EncryptDict { v: Some(1), p: Some(-4), ..empty_dict() };
    let result = EncryptionHandler::from_dict(&dict, b"file-id", b"");
    assert!(result.is_err());
    match result {
        Err(PdfError::EncryptionError(m)) => assert_eq!(m, "Encrypt dict missing /R"),
        other => panic!("unexpected {:?}", other),
    }
}

#[test]
fn from_dict_unsupported_v() {
    let dict = EncryptDict {
        r: Some(2),
        v: Some(5),
        p: Some(-4),
        o: Some(vec![0; 32]),
        u: Some(vec![0; 32]),
        ..empty_dict()
    };
    let result = EncryptionHandler::from_dict(&dict, b"file-id", b"");
    assert!(result.is_err());
}

#[test]
fn from_dict_unknown_v_message() {
    let dict = EncryptDict {
        r: Some(2),
        v: Some(3),
        p: Some(-4),
        o: Some(vec![0; 32]),
        u: Some(vec![0; 32]),
        ..empty_dict()
    };
    match EncryptionHandler::from_dict(&dict, b"file-id", b"") {
        Err(PdfError::UnsupportedFeature(m)) => assert_eq!(m, "Encryption V=3"),
        other => panic!("unexpected {:?}", other),
    }
}

#[test]
fn from_dict_r2_round_trip() {
    let o_value = vec![0x11u8; 32];
    let id = b"file-id";
    let key = EncryptionKey::compute_r2_r4(b"", &o_value, -4, id, 40, 2, true).unwrap();
    let u_value = rc4(&key.key, &PADDING);
    let dict = EncryptDict {
        r: Some(2),
        v: Some(1),
        p: Some(-4),
        o: Some(o_value),
        u: Some(u_value),
        ..empty_dict()
    };
    let handler = EncryptionHandler::from_dict(&dict, id, b"").unwrap();
    assert_eq!(handler.algorithm(), CryptAlgorithm::Rc4);
    assert_eq!(handler.revision(), 2);
    assert!(handler.encrypts_metadata());
    assert_eq!(handler.permissions.flags, -4);
    // Strings decrypt with RC4 under the object key.
    let okey = object_key(&key.key, 1, 0, false);
    let cipher = rc4(&okey, b"secret text");
    assert_eq!(handler.decrypt_string((1, 0), &cipher), b"secret text");
    // A wrong password is refused.
    match EncryptionHandler::from_dict(&dict, id, b"nope") {
        Err(PdfError::InvalidPassword) => {}
        other => panic!("unexpected {:?}", other),
    }
}

#[test]
fn from_dict_v4_aesv2() {
    let o_value = vec![0x22u8; 32];
    let id = b"id";
    let key = EncryptionKey::compute_r2_r4(b"", &o_value, -4, id, 128, 4, false).unwrap();
    let mut input = PADDING.to_vec();
    input.extend_from_slice(id);
    let mut u = rc4(&key.key, &md5::compute(&input).0);
    for i in 1..=19u8 {
        let k: Vec<u8> = key.key.iter().map(|b| b ^ i).collect();
        u = rc4(&k, &u);
    }
    u.extend_from_slice(&[0u8; 16]);
    let dict = EncryptDict {
        r: Some(4),
        v: Some(4),
        length: Some(128),
        p: Some(-4),
        o: Some(o_value),
        u: Some(u),
        encrypt_metadata: Some(false),
        std_cf_cfm: Some("AESV2".to_string()),
        ..empty_dict()
    };
    let handler = EncryptionHandler::from_dict(&dict, id, b"").unwrap();
    assert_eq!(handler.algorithm(), CryptAlgorithm::AesV2);
    assert!(!handler.encrypts_metadata());
    let okey = object_key(&key.key, 7, 0, true);
    let data = encrypt_cbc_pkcs7_128(&okey, &[0x01; 16], b"sixteen byte msg");
    assert_eq!(handler.decrypt_string((7, 0), &data), b"sixteen byte msg");
    // Data that does not decrypt comes back unchanged.
    assert_eq!(handler.decrypt_string((7, 0), b"short"), b"short");
}

fn build_r5_encrypt_dict(password: &[u8], file_key: &[u8; 32]) -> EncryptDict {
    let p_value: i32 = -4;
    let u_vsalt = [0x11; 8];
    let u_ksalt = [0x22; 8];
    let o_vsalt = [0x33; 8];
    let o_ksalt = [0x44; 8];
    let mut u_value = hash_r5(password, &u_vsalt, &[]);
    u_value.extend_from_slice(&u_vsalt);
    u_value.extend_from_slice(&u_ksalt);
    let mut o_value = hash_r5(password, &o_vsalt, &u_value);
    o_value.extend_from_slice(&o_vsalt);
    o_value.extend_from_slice(&o_ksalt);
    let u_intermediate = hash_r5(password, &u_ksalt, &[]);
    let ue_value = encrypt_aes256_no_pad(&u_intermediate, &[0; 16], file_key);
    let o_intermediate = hash_r5(password, &o_ksalt, &u_value);
    let oe_value = encrypt_aes256_no_pad(&o_intermediate, &[0; 16], file_key);
    let perms_value = build_perms(file_key, p_value, true);
    EncryptDict {
        r: Some(5),
        v: Some(5),
        length: Some(256),
        p: Some(p_value as i64),
        o: Some(o_value),
        u: Some(u_value),
        ue: Some(ue_value),
        oe: Some(oe_value),
        perms: Some(perms_value),
        encrypt_metadata: None,
        std_cf_cfm: None,
    }
}

#[test]
fn from_dict_r5_user_password() {
    let file_key = [0xAA; 32];
    let dict = build_r5_encrypt_dict(b"", &file_key);
    let handler = EncryptionHandler::from_dict(&dict, &[], b"").unwrap();
    assert_eq!(handler.algorithm(), CryptAlgorithm::AesV3);
    assert_eq!(handler.revision(), 5);
    let data = encrypt_cbc_pkcs7_256(&file_key, &[0x03; 16], b"file key matches");
    assert_eq!(handler.decrypt_string((1, 0), &data), b"file key matches");
}

#[test]
fn from_dict_r5_wrong_password() {
    let file_key = [0xAA; 32];
    let dict = build_r5_encrypt_dict(b"correct", &file_key);
    let result = EncryptionHandler::from_dict(&dict, &[], b"wrong");
    assert!(result.is_err());
}

#[test]
fn from_dict_r5_missing_perms() {
    let file_key = [0xAA; 32];
    let mut dict = build_r5_encrypt_dict(b"", &file_key);
    dict.perms = None;
    match EncryptionHandler::from_dict(&dict, &[], b"") {
        Err(PdfError::EncryptionError(m)) => assert_eq!(m, "Encrypt dict missing /Perms"),
        other => panic!("unexpected {:?}", other),
    }
}

#[test]
fn decrypt_string_aesv3() {
    let file_key = [0xDD; 32];
    let dict = build_r5_encrypt_dict(b"pw", &file_key);
    let handler = EncryptionHandler::from_dict(&dict, &[], b"pw").unwrap();
    let data = encrypt_cbc_pkcs7_256(&file_key, &[0x00; 16], b"Hello, AES-256!!");
    let decrypted = handler.decrypt_string((1, 0), &data);
    assert_eq!(decrypted, b"Hello, AES-256!!");
}

#[test]
fn decrypt_stream_aesv3_no_per_object_key() {
    let file_key = [0xDD; 32];
    let dict = build_r5_encrypt_dict(b"pw", &file_key);
    let handler = EncryptionHandler::from_dict(&dict, &[], b"pw").unwrap();
    let data = encrypt_cbc_pkcs7_256(&file_key, &[0x42; 16], b"stream data here");
    let d1 = handler.decrypt_stream((1, 0), &data);
    let d2 = handler.decrypt_stream((999, 5), &data);
    assert_eq!(d1, d2);
    assert_eq!(d1, b"stream data here");
}

fn rc4_test_handler() -> EncryptionHandler {
    let o_value = vec![0x11u8; 32];
    let id = b"file-id";
    let key = EncryptionKey::compute_r2_r4(b"", &o_value, -4, id, 40, 2, true).unwrap();
    let u_value = rc4(&key.key, &PADDING);
    let dict = EncryptDict {
        r: Some(2),
        v: Some(1),
        p: Some(-4),
        o: Some(o_value),
        u: Some(u_value),
        ..empty_dict()
    };
    EncryptionHandler::from_dict(&dict, id, b"").unwrap()
}

#[test]
fn decrypt_object_string() {
    let handler = rc4_test_handler();
    let obj_id = (1, 0);
    let mut obj = Object::String(PdfString {
        bytes: vec![0x01, 0x02, 0x03],
        format: StringFormat::Literal,
    });
    handler.decrypt_object(obj_id, &mut obj);
    if let Object::String(s) = &obj {
        assert_ne!(s.bytes, vec![0x01, 0x02, 0x03]);
    } else {
        panic!("Expected String");
    }
}

#[test]
fn decrypt_object_recursion() {
    let handler = rc4_test_handler();
    let obj_id = (1, 0);
    let inner = Object::String(PdfString {
        bytes: vec![0x42],
        format: StringFormat::Literal,
    });
    let mut obj = Object::Array(vec![inner]);
    handler.decrypt_object(obj_id, &mut obj);
    if let Object::Array(arr) = &obj {
        if let Object::String(s) = &arr[0] {
            assert_ne!(s.bytes, vec![0x42]);
        }
    }
}

#[test]
fn decrypt_object_reaches_dictionary_values_and_stream_data() {
    let handler = rc4_test_handler();
    let id = (4, 0);
    let mut dict = Dictionary::new();
    dict.insert(
        PdfName::new("Title"),
        Object::String(PdfString::from_hex(vec![0xAA, 0xBB])),
    );
    dict.insert(PdfName::new("Type"), Object::Name(PdfName::new("Info")));
    let mut obj = Object::Dictionary(dict);
    handler.decrypt_object(id, &mut obj);
    let d = obj.as_dict().unwrap();
    let title = d.get("Title").unwrap().as_pdf_string().unwrap();
    assert_eq!(title.bytes, handler.decrypt_string(id, &[0xAA, 0xBB]));
    assert_eq!(title.format, StringFormat::Literal);
    assert_eq!(d.get_name("Type"), Some("Info"));

    let mut sd = Dictionary::new();
    sd.insert(
        PdfName::new("Note"),
        Object::String(PdfString::from_literal("kept")),
    );
    let mut stream = Object::Stream(PdfStream::new(sd, b"payload".to_vec()));
    handler.decrypt_object(id, &mut stream);
    let st = stream.as_stream().unwrap();
    assert_eq!(st.data, handler.decrypt_stream(id, b"payload"));
    assert_eq!(st.dict.get_text("Note"), Some("kept".to_string()));
}

#[test]
fn encrypt_dict_read_from_dictionary() {
    let o_value = vec![0x11u8; 32];
    let id = b"file-id";
    let key = EncryptionKey::compute_r2_r4(b"", &o_value, -4, id, 40, 2, true).unwrap();
    let u_value = rc4(&key.key, &PADDING);
    let mut dict = Dictionary::new();
    dict.insert(PdfName::new("R"), Object::Integer(2));
    dict.insert(PdfName::new("V"), Object::Integer(1));
    dict.insert(PdfName::new("P"), Object::Integer(-4));
    dict.insert(PdfName::new("O"), Object::String(PdfString::from_hex(o_value.clone())));
    dict.insert(PdfName::new("U"), Object::String(PdfString::from_hex(u_value.clone())));
    dict.insert(PdfName::new("Length"), Object::Name(PdfName::new("Forty")));
    let model = EncryptDict::from_dictionary(&dict);
    assert_eq!(model.r, Some(2));
    assert_eq!(model.v, Some(1));
    assert_eq!(model.p, Some(-4));
    assert_eq!(model.length, None);
    assert_eq!(model.o, Some(o_value));
    assert_eq!(model.u, Some(u_value));
    assert!(model.encrypt_metadata.is_none());
    assert!(model.std_cf_cfm.is_none());
    let handler = EncryptionHandler::from_dict(&model, id, b"").unwrap();
    assert_eq!(handler.algorithm(), CryptAlgorithm::Rc4);

    let mut std_cf = Dictionary::new();
    std_cf.insert(PdfName::new("CFM"), Object::Name(PdfName::new("AESV2")));
    let mut cf = Dictionary::new();
    cf.insert(PdfName::new("StdCF"), Object::Dictionary(std_cf));
    let mut d2 = Dictionary::new();
    d2.insert(PdfName::new("CF"), Object::Dictionary(cf));
    d2.insert(PdfName::new("EncryptMetadata"), Object::Boolean(false));
    let m2 = EncryptDict::from_dictionary(&d2);
    assert_eq!(m2.std_cf_cfm, Some("AESV2".to_string()));
    assert_eq!(m2.encrypt_metadata, Some(false));
}

#[test]
fn from_dict_key_length_above_128_bits_is_an_error() {
    let dict = EncryptDict {
        r: Some(3),
        v: Some(2),
        length: Some(256),
        p: Some(-4),
        o: Some(vec![0; 32]),
        u: Some(vec![0; 32]),
        ..empty_dict()
    };
    match EncryptionHandler::from_dict(&dict, b"id", b"") {
        Err(PdfError::EncryptionError(m)) => assert_eq!(m, "Encrypt /Length exceeds 128 bits"),
        Err(e) => panic!("unexpected {:?}", e),
        Ok(_) => panic!("expected an error"),
    }
}

#[test]
fn from_dict_short_u_is_an_error() {
    let dict = EncryptDict {
        r: Some(3),
        v: Some(2),
        length: Some(128),
        p: Some(-4),
        o: Some(vec![0; 32]),
        u: Some(vec![0; 8]),
        ..empty_dict()
    };
    assert!(matches!(
        EncryptionHandler::from_dict(&dict, b"id", b""),
        Err(PdfError::EncryptionError(_))
    ));
}

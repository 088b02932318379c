use aes_gcm_siv::aead::{Aead, KeyInit};
use base64::Engine;
use vault::encryption::{
    decrypt_vault, encode_sealed_vault, encrypt_vault, encrypt_vault_with_nonce, open_decoded_vault, password_hash,
    try_decrypt_vault, CryptError,
};

fn get_decrypted_vault() -> String {
        String::from(
            r#"[[contents]]
id = 1
title = \"Bank\"

[[contents.fields]]
id = 0
kind = \"Url\"
title = \"URL\"
visible = true
value = [[1702851212, \"https://bankofaustralia.com.au\"]]

[[contents.fields]]
id = 1
kind = \"TextLineSecret\"
title = \"Username\"
visible = true
value = [[1702851212, \"ano85\"]]

[[contents.fields]]
id = 2
kind = \"TextLineSecret\"
title = \"Password\"
visible = true
value = [[1702851212, \"totally_secure_password!1\"]]

[[contents.fields]]
id = 3
kind = \"TextLineSecret\"
title = \"Notes\"
visible = true
value = [[1702851212, \"My secret notes\"]]

[[contents.fields]]
id = 4
kind = \"TextLineSecret\"
title = \"Other\"
visible = true
value = [[1702851212, \"Some other notes\"]]"#,
        )
}

fn get_encrypted_vault() -> String {
        String::from("AAECAwQFBgcICQoLG4YLeolit5FN5dKEKZIpO6lblz/h6i0AmT7i0cJyUidis0rHpiBX0VWSheaZeN14qnamUefDSZ4rTi+Cl8x5B/V0YYqM4NpB4WItSlppRshaim7+xYa1rAqVoqYqUyacuST6DRK0p1eE15zZKjGEVAM8Y8zX2N6E93VbN7jPM1h0Ml9Y0np1PorLKTmyNjwOrOiQ/Y0YDbqhrq22kPhadW/uL8Mfo2Rvc2Opla87RVBXoZv3g8/D+kN/Sbwfw6YbxVQt+s7v2sAYkRBHUyOUQ0nIOvXuq2zwtKGXm1m6ejvRg/QfdYlnVHnVKy4k+RHaX1SDOlSSOJKSsQdazMxXoRpBRfHsfapkZhMKXMk/RuQcJZpAMrTNNx4IcsOyJyaYxG337gI7asx5PhtxIGG5GRsbHKdR7URmjlg9OtaQI4OYEdh92EeIE1/+FushLgpi7KI44BTh0Tt5GkQTRZ9A6oKb2D1EHLIHCVTbfamxScZRIv2itd/c/ZQ2zU3JZpMNukRSOpARemv9ZDcSGJpGlGxRaCTZ5ex6hZRuspaxLqrN+u6LSlHzWS8tgiUR8NyPcArUr80lKGuSN+E78FclN+eex+1zGtJCrY6KiAgRYNrLvro/mpcLe6Cvqc3tH4MHhL2TDWpDkbPHCrID4NDDJ9mEuOokAw8Gme52Wct54pVxc/2pOKReeDugl9QhN+uz8QnZWq69PmaZjPT3XuoUYo3TmYSzUJxwtc3kfBPLktY1oxguvnGHRpFOg6w+ujQpWVbNGrbW4T8V+mWBqxzO5kdIsMwXZl0e4vo0TFVIHdivdghMcWtvhg7/wrrn8/TX9BUWane6LPjIAvHy7ZaIRYXRXew3g/nrmb61HEgyjcWIA6cONsBVS/gt67su7ng7V+jVmV0KYGDPXC5I4h5DyjqUeAcqJskx4cqEPlZY6vDuDCgZgroOC1S8xmc")
}

fn get_password_hash() -> [u8; 32] {
    let password = String::from("TestPassword");
    let salt = String::from("TestSalt");
    password_hash(password, salt).unwrap()
}

#[test]
fn test_password_hash() {
    let expected: [u8; 32] = [
        137, 120, 26, 219, 42, 237, 139, 10, 46, 243, 159, 115, 172, 190, 29, 18,
        242, 81, 51, 110, 181, 61, 184, 22, 137, 47, 254, 97, 238, 23, 100, 185,
    ];
    assert_eq!(get_password_hash(), expected);
}

#[test]
fn test_encrypt_vault() {
    let hash = get_password_hash();
    let expected = get_encrypted_vault();
    let nonce = [0, 1, 2, 3, 4, 5, 6, 7, 8, 9, 10, 11];
    assert_eq!(encrypt_vault_with_nonce(get_decrypted_vault(), hash, nonce).unwrap(), expected);
}

#[test]
fn test_decrypt_vault() {
    let hash = get_password_hash();
    let expected = get_decrypted_vault();
    assert_eq!(decrypt_vault(get_encrypted_vault(), hash).unwrap(), expected);
}

#[test]
fn password_hash_rejects_short_salt() {
    assert_eq!(password_hash(String::from("p"), String::from("short")), Err(CryptError::Hash));
    assert_eq!(password_hash(String::from("p"), String::from("")), Err(CryptError::Hash));
    assert!(password_hash(String::from(""), String::from("12345678")).is_ok());
}

#[test]
fn password_hash_depends_on_password_and_salt() {
    let a = password_hash(String::from("TestPassword"), String::from("TestSalt")).unwrap();
    let b = password_hash(String::from("TestPassword2"), String::from("TestSalt")).unwrap();
    let c = password_hash(String::from("TestPassword"), String::from("TestSalt2")).unwrap();
    assert_ne!(a, b);
    assert_ne!(a, c);
}

#[test]
fn encrypt_then_decrypt_round_trips() {
    let hash = get_password_hash();
    let text = String::from("[[contents]]\nid = 1\ntitle = \"Bank \u{1F3E6}\"");
    let sealed = encrypt_vault(text.clone(), hash).unwrap();
    assert_ne!(sealed, text);
    assert_eq!(decrypt_vault(sealed.clone(), hash).unwrap(), text);
    assert_eq!(try_decrypt_vault(sealed, hash), Some(Ok(text)));
}

#[test]
fn encryption_uses_a_fresh_nonce() {
    let hash = get_password_hash();
    let a = encrypt_vault(String::from("same text"), hash).unwrap();
    let b = encrypt_vault(String::from("same text"), hash).unwrap();
    assert_ne!(a, b);
}

#[test]
fn decrypt_with_wrong_key_is_a_decryption_error() {
    let mut hash = get_password_hash();
    hash[0] ^= 1;
    assert_eq!(decrypt_vault(get_encrypted_vault(), hash), Err(CryptError::Decryption));
}

#[test]
fn decrypt_of_non_base64_is_a_base64_error() {
    let hash = get_password_hash();
    assert_eq!(decrypt_vault(String::from("not base64 at all!"), hash), Err(CryptError::Base64Decode));
    assert_eq!(try_decrypt_vault(String::from("@@@@"), hash), Some(Err(CryptError::Base64Decode)));
}

#[test]
fn decrypt_of_invalid_utf8_is_a_utf8_error() {
    let hash = get_password_hash();
    let nonce = [7u8; 12];
    // A vault whose plaintext bytes are not UTF-8.
    let cipher = aes_gcm_siv::Aes256GcmSiv::new_from_slice(&hash).unwrap();
    let ct = cipher.encrypt(aes_gcm_siv::Nonce::from_slice(&nonce), [0xffu8, 0xfe].as_ref()).unwrap();
    let payload = [nonce.as_slice(), ct.as_slice()].concat();
    let b64 = base64::engine::general_purpose::STANDARD_NO_PAD.encode(payload);
    assert_eq!(decrypt_vault(b64, hash), Err(CryptError::UTF8));
}

#[test]
fn too_short_vault_is_not_decrypted() {
    let hash = get_password_hash();
    // "AAAA" decodes to three bytes, too few to hold the nonce.
    assert_eq!(try_decrypt_vault(String::from("AAAA"), hash), None);
}

#[test]
fn nonce_is_the_start_of_the_sealed_vault() {
    let hash = get_password_hash();
    let sealed = encrypt_vault_with_nonce(String::from("x"), hash, [0, 1, 2, 3, 4, 5, 6, 7, 8, 9, 10, 11]).unwrap();
    assert!(sealed.starts_with("AAECAwQFBgcICQoL"));
}

#[test]
fn crypt_error_messages() {
    assert_eq!(CryptError::Hash.message(), "Failed to create hash from password.");
    assert_eq!(CryptError::Base64Decode.message(), "Failed to decode base64");
    assert_eq!(CryptError::Cipher.message(), "Failed to create crypto cipher, likely invalid length nonce");
    assert_eq!(CryptError::Decryption.message(), "Incorrect password.");
    assert_eq!(CryptError::UTF8.message(), "Failed to decode utf8.");
}

#[test]
fn open_decoded_vault_reads_nonce_then_ciphertext() {
    let hash = get_password_hash();
    let decoded = base64::engine::general_purpose::STANDARD_NO_PAD.decode(get_encrypted_vault()).unwrap();
    assert_eq!(open_decoded_vault(decoded.clone(), hash).unwrap(), get_decrypted_vault());
    let mut wrong_nonce = decoded;
    wrong_nonce[0] ^= 0x80;
    assert_eq!(open_decoded_vault(wrong_nonce, hash), Err(CryptError::Decryption));
}

#[test]
fn encode_sealed_vault_prefixes_the_nonce() {
    let decoded = base64::engine::general_purpose::STANDARD_NO_PAD.decode(get_encrypted_vault()).unwrap();
    let nonce: [u8; 12] = decoded[..12].try_into().unwrap();
    assert_eq!(nonce, [0, 1, 2, 3, 4, 5, 6, 7, 8, 9, 10, 11]);
    assert_eq!(encode_sealed_vault(nonce, decoded[12..].to_vec()), get_encrypted_vault());
    assert_eq!(encode_sealed_vault([0; 12], vec![]), "AAAAAAAAAAAAAAAA");
}

#[test]
fn sealed_vault_layout() {
    let key = [7u8; 32];
    let text = String::from("some vault text");
    let sealed = encrypt_vault(text.clone(), key).unwrap();
    assert!(!sealed.contains('='));
    let bytes = base64::engine::general_purpose::STANDARD_NO_PAD.decode(sealed.as_bytes()).unwrap();
    assert_eq!(bytes.len(), 12 + text.len() + 16);
    let nonce = [3u8; 12];
    let sealed = encrypt_vault_with_nonce(text.clone(), key, nonce).unwrap();
    let bytes = base64::engine::general_purpose::STANDARD_NO_PAD.decode(sealed.as_bytes()).unwrap();
    assert_eq!(&bytes[..12], &nonce[..]);
    assert_eq!(decrypt_vault(sealed, key), Ok(text));
}

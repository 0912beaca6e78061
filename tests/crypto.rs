use sha2::Digest;
use vyasoai_daemon::blobs::{blob_dir, blob_path, open_blob, seal_blob, seal_blob_with_nonce, BlobDate, BlobError};
use vyasoai_daemon::crypto::{decrypt_bytes, derive_key, encrypt_bytes, seal_with_nonce, CryptoError, KeyManager};

fn key() -> [u8; 32] {
    derive_key(Some("test-passphrase"))
}

#[test]
fn key_is_sha256_of_the_passphrase() {
    let expected: [u8; 32] = sha2::Sha256::digest(b"test-passphrase").into();
    assert_eq!(key(), expected);
    let fallback: [u8; 32] = sha2::Sha256::digest(b"vyasoai-dev-default-key").into();
    assert_eq!(derive_key(None), fallback);
    assert_eq!(KeyManager::new(None).key, fallback);
}

#[test]
fn decrypt_inverts_encrypt() {
    let k = key();
    for plain in [&b""[..], &b"alpha"[..], &[7u8; 1000][..]] {
        let sealed = encrypt_bytes(&k, plain).unwrap();
        assert_eq!(sealed.len(), 12 + plain.len() + 16);
        assert_eq!(decrypt_bytes(&k, &sealed).unwrap(), plain.to_vec());
    }
}

#[test]
fn two_encryptions_differ() {
    let k = key();
    let a = encrypt_bytes(&k, b"same plaintext").unwrap();
    let b = encrypt_bytes(&k, b"same plaintext").unwrap();
    assert_ne!(a, b);
    assert_ne!(a[12..].to_vec(), b"same plaintext".to_vec());
}

#[test]
fn decrypt_rejects_short_and_tampered_input() {
    let k = key();
    assert_eq!(decrypt_bytes(&k, &[0u8; 11]), Err(CryptoError::CipherTooShort));
    let mut sealed = encrypt_bytes(&k, b"alpha").unwrap();
    let last = sealed.len() - 1;
    sealed[last] ^= 1;
    assert_eq!(decrypt_bytes(&k, &sealed), Err(CryptoError::AuthFailure));
    let sealed = encrypt_bytes(&k, b"alpha").unwrap();
    assert_eq!(decrypt_bytes(&derive_key(None), &sealed), Err(CryptoError::AuthFailure));
}

#[test]
fn blob_body_round_trips() {
    let k = key();
    let content = b"hello world hello world hello world".to_vec();
    let stored = seal_blob(&k, &content).unwrap();
    assert_ne!(stored, content);
    assert_eq!(open_blob(&k, &stored).unwrap(), content);
}

#[test]
fn blob_body_that_is_not_zstd_is_a_format_error() {
    let k = key();
    let stored = encrypt_bytes(&k, b"not a zstd stream").unwrap();
    assert!(matches!(open_blob(&k, &stored), Err(BlobError::Format(_))));
    assert!(matches!(open_blob(&k, b"short"), Err(BlobError::Crypto(CryptoError::CipherTooShort))));
}

#[test]
fn blob_layout_is_dated() {
    let d = BlobDate { year: 2024, month: 3, day: 7 };
    assert_eq!(blob_dir(d), "data/blobs/2024/03/07");
    assert_eq!(blob_path(d, "abc"), "data/blobs/2024/03/07/abc.zst.enc");
    let d = BlobDate { year: 812, month: 12, day: 31 };
    assert_eq!(blob_dir(d), "data/blobs/0812/12/31");
    let d = BlobDate { year: -5, month: 1, day: 1 };
    assert_eq!(blob_dir(d), format!("data/blobs/{:04}/{:02}/{:02}", -5, 1, 1));
}

#[test]
fn today_is_a_calendar_day() {
    let d = BlobDate::today();
    assert!((1..=12).contains(&d.month));
    assert!((1..=31).contains(&d.day));
    assert!(d.year >= 2024);
}

#[test]
fn blob_body_is_compressed_before_encryption() {
    let k = key();
    let content = vec![0u8; 10_000];
    let stored = seal_blob(&k, &content).unwrap();
    assert!(stored.len() < 200);
    assert_eq!(open_blob(&k, &stored).unwrap(), content);
}

#[test]
fn sealing_under_a_given_nonce_is_nonce_then_ciphertext_and_tag() {
    let k = key();
    let n1 = [1u8; 12];
    let n2 = [2u8; 12];
    let a = seal_with_nonce(&k, &n1, b"alpha").unwrap();
    let b = seal_with_nonce(&k, &n2, b"alpha").unwrap();
    assert_eq!(a.len(), 12 + 5 + 16);
    assert_eq!(&a[..12], &n1);
    assert_ne!(a, b);
    assert_eq!(seal_with_nonce(&k, &n1, b"alpha").unwrap(), a);
    assert_eq!(decrypt_bytes(&k, &b).unwrap(), b"alpha".to_vec());
}

#[test]
fn blob_sealed_under_a_given_nonce_starts_with_it() {
    let k = key();
    let n = [9u8; 12];
    let content = b"hello world".to_vec();
    let stored = seal_blob_with_nonce(&k, &n, &content).unwrap();
    assert_eq!(&stored[..12], &n);
    let compressed = zstd::stream::encode_all(&content[..], 3).unwrap();
    assert_eq!(decrypt_bytes(&k, &stored).unwrap(), compressed);
    assert_eq!(open_blob(&k, &stored).unwrap(), content);
}

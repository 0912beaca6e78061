//! The blob store's layout on disk and the byte pipeline of a blob body:
//! compress, then encrypt; and back.
use vstd::prelude::*;
use crate::crypto::{
    CryptoError, MAX_PLAINTEXT, NONCE_SIZE, decrypt_bytes, decrypted, encrypted_form,
    encrypted_with, random_nonce, seal_with_nonce,
};
use crate::text::{padded_decimal, push_padded_decimal};

verus! {

/// A calendar day in UTC, as the blob layout names it.
#[derive(Clone, Copy, Debug, PartialEq, Eq, Structural)]
pub struct BlobDate {
    pub year: i32,
    pub month: u8,
    pub day: u8,
}

/// A year as `{:04}` writes it: four digits at least, the sign counted in the width.
pub open spec fn year_text(y: int) -> Seq<char> {
    if y >= 0 {
        padded_decimal(y as nat, 4)
    } else {
        seq!['-'] + padded_decimal((-y) as nat, 3)
    }
}

/// `data/blobs/YYYY/MM/DD`: the directory of the blobs first stored on `d`.
pub open spec fn blob_dir_text(d: BlobDate) -> Seq<char> {
    "data/blobs/"@ + year_text(d.year as int) + seq!['/'] + padded_decimal(d.month as nat, 2)
        + seq!['/'] + padded_decimal(d.day as nat, 2)
}

/// `data/blobs/YYYY/MM/DD/<hash>.zst.enc`: where the blob of `hash` first stored
/// on `d` lives.
pub open spec fn blob_path_text(d: BlobDate, hash: Seq<char>) -> Seq<char> {
    blob_dir_text(d) + seq!['/'] + hash + ".zst.enc"@
}

/// Relies on time::OffsetDateTime::now_utc, read as year, month number
/// (`Month` as `u8`, January being 1) and day of the month.
#[verifier::external_body]
fn today_utc() -> (r: BlobDate)
    ensures
        1 <= r.month <= 12,
        1 <= r.day <= 31,
{
    let now = time::OffsetDateTime::now_utc();
    BlobDate { year: now.year(), month: now.month() as u8, day: now.day() }
}

impl BlobDate {
    /// Today's date in UTC.
    pub fn today() -> (r: BlobDate)
        ensures
            1 <= r.month <= 12,
            1 <= r.day <= 31,
    {
        today_utc()
    }
}

/// The directory of the blobs first stored on `d`.
pub fn blob_dir(d: BlobDate) -> (r: String)
    ensures
        r@ == blob_dir_text(d),
{
    let mut s = String::from_str("data/blobs/");
    if d.year >= 0 {
        push_padded_decimal(&mut s, d.year as u32, 4);
    } else {
        s.push('-');
        let magnitude = (-(d.year as i64)) as u32;
        push_padded_decimal(&mut s, magnitude, 3);
    }
    s.push('/');
    push_padded_decimal(&mut s, d.month as u32, 2);
    s.push('/');
    push_padded_decimal(&mut s, d.day as u32, 2);
    assert(s@ =~= blob_dir_text(d));
    s
}

/// The path of the blob of `hash` first stored on `d`.
pub fn blob_path(d: BlobDate, hash: &str) -> (r: String)
    ensures
        r@ == blob_path_text(d, hash@),
{
    let mut s = blob_dir(d);
    s.push('/');
    s.append(hash);
    s.append(".zst.enc");
    assert(s@ =~= blob_path_text(d, hash@));
    s
}

#[verifier::external_type_specification]
#[verifier::external_body]
pub struct ExIoError(std::io::Error);

/// The Zstandard compression level of blob bodies.
pub const ZSTD_LEVEL: i32 = 3;

/// What Zstandard decoding makes of `data`, or `None` where it is not a valid
/// Zstandard stream.
pub uninterp spec fn zstd_decoded(data: Seq<u8>) -> Option<Seq<u8>>;

/// The Zstandard stream that `zstd::stream::encode_all` makes of `data` at level 3.
pub uninterp spec fn zstd_level3_of(data: Seq<u8>) -> Seq<u8>;

/// Relies on zstd::stream::encode_all at level 3: the compressed stream, which
/// decodes back to the input.
#[verifier::external_body]
fn zstd_compress(data: &[u8]) -> (r: Result<Vec<u8>, std::io::Error>)
    ensures
        r matches Ok(c) ==> c@ == zstd_level3_of(data@) && zstd_decoded(c@) == Some(data@),
{
    zstd::stream::encode_all(data, ZSTD_LEVEL)
}

/// Relies on zstd::stream::decode_all: the decoded bytes, or an error where the
/// input is not a valid Zstandard stream.
#[verifier::external_body]
fn zstd_decompress(data: &[u8]) -> (r: Result<Vec<u8>, std::io::Error>)
    ensures
        match r {
            Ok(p) => zstd_decoded(data@) == Some(p@),
            Err(_) => zstd_decoded(data@) is None,
        },
{
    zstd::stream::decode_all(data)
}

/// A failure to write or read a blob.
#[derive(Debug)]
pub enum BlobError {
    /// Reading, writing or compressing failed.
    Io(std::io::Error),
    /// The stored bytes do not decrypt under the key.
    Crypto(CryptoError),
    /// The decrypted bytes are not a valid Zstandard stream.
    Format(std::io::Error),
}

/// What the stored bytes of a blob open to: decrypted, then decompressed.
pub open spec fn blob_opened(key: Seq<u8>, stored: Seq<u8>) -> Option<Seq<u8>> {
    match decrypted(key, stored) {
        Some(compressed) => zstd_decoded(compressed),
        None => None,
    }
}

/// `stored` is a blob body for `content` under `nonce`: its level-3 Zstandard
/// stream, encrypted.
pub open spec fn sealed_blob_with(
    key: Seq<u8>,
    nonce: Seq<u8>,
    content: Seq<u8>,
    stored: Seq<u8>,
) -> bool {
    &&& encrypted_with(key, nonce, zstd_level3_of(content), stored)
    &&& zstd_decoded(zstd_level3_of(content)) == Some(content)
}

/// `stored` is a blob body for `content`, under the nonce it begins with.
pub open spec fn sealed_blob(key: Seq<u8>, content: Seq<u8>, stored: Seq<u8>) -> bool {
    sealed_blob_with(key, stored.take(NONCE_SIZE as int), content, stored)
}

/// What opening guarantees of its result `r` on `stored` under `key`.
pub open spec fn open_contract(key: Seq<u8>, stored: Seq<u8>, r: Result<Vec<u8>, BlobError>) -> bool {
    match r {
        Ok(p) => blob_opened(key, stored) == Some(p@),
        Err(BlobError::Crypto(_)) => decrypted(key, stored) is None,
        Err(BlobError::Format(_)) => decrypted(key, stored) is Some && blob_opened(key, stored) is None,
        Err(BlobError::Io(_)) => false,
    }
}

/// The bytes stored for a blob under `nonce`: `content` compressed with
/// Zstandard at level 3, then encrypted. Fails where compression fails, or
/// where the compressed stream is longer than AES-GCM allows.
pub fn seal_blob_with_nonce(key: &[u8; 32], nonce: &[u8; 12], content: &[u8]) -> (r: Result<
    Vec<u8>,
    BlobError,
>)
    ensures
        r matches Ok(stored) ==> sealed_blob_with(key@, nonce@, content@, stored@),
        r matches Ok(stored) ==> blob_opened(key@, stored@) == Some(content@),
        r matches Err(BlobError::Crypto(e)) ==> e == CryptoError::EncryptFailure
            && zstd_level3_of(content@).len() > MAX_PLAINTEXT,
        !(r matches Err(BlobError::Format(_))),
{
    let compressed = match zstd_compress(content) {
        Ok(c) => c,
        Err(e) => return Err(BlobError::Io(e)),
    };
    match seal_with_nonce(key, nonce, compressed.as_slice()) {
        Ok(stored) => {
            assert(stored@.take(NONCE_SIZE as int) =~= nonce@);
            Ok(stored)
        },
        Err(e) => Err(BlobError::Crypto(e)),
    }
}

/// The bytes stored for a blob under a fresh random nonce; see
/// `seal_blob_with_nonce`. Fails also where the random source gives no nonce.
pub fn seal_blob(key: &[u8; 32], content: &[u8]) -> (r: Result<Vec<u8>, BlobError>)
    ensures
        r matches Ok(stored) ==> sealed_blob(key@, content@, stored@),
        r matches Ok(stored) ==> blob_opened(key@, stored@) == Some(content@),
        r matches Err(BlobError::Crypto(e)) ==> e == CryptoError::RandomSourceFailure || (e
            == CryptoError::EncryptFailure && zstd_level3_of(content@).len() > MAX_PLAINTEXT),
        !(r matches Err(BlobError::Format(_))),
{
    let nonce = match random_nonce() {
        Ok(n) => n,
        Err(_) => return Err(BlobError::Crypto(CryptoError::RandomSourceFailure)),
    };
    let r = seal_blob_with_nonce(key, &nonce, content);
    proof {
        if r is Ok {
            assert(r->Ok_0@.take(NONCE_SIZE as int) =~= nonce@);
        }
    }
    r
}

/// The content of a stored blob: decrypted, then decompressed.
pub fn open_blob(key: &[u8; 32], stored: &[u8]) -> (r: Result<Vec<u8>, BlobError>)
    ensures
        open_contract(key@, stored@, r),
{
    let compressed = match decrypt_bytes(key, stored) {
        Ok(c) => c,
        Err(e) => return Err(BlobError::Crypto(e)),
    };
    match zstd_decompress(compressed.as_slice()) {
        Ok(p) => Ok(p),
        Err(e) => Err(BlobError::Format(e)),
    }
}

/// Opening the bytes stored for a blob gives its content back byte for byte.
pub proof fn lemma_blob_round_trip(
    key: Seq<u8>,
    content: Seq<u8>,
    stored: Seq<u8>,
    r: Result<Vec<u8>, BlobError>,
)
    requires
        sealed_blob(key, content, stored),
        open_contract(key, stored, r),
    ensures
        r matches Ok(p) && p@ == content,
{
    assert(decrypted(key, stored) == Some(zstd_level3_of(content)));
}

} // verus!

//! Lightweight fingerprints for change detection.

use vstd::prelude::*;
use sha2::{Digest, Sha256};
use crate::parser::prefix_bytes;
use crate::text::{decimal, hex_digit_char, hex_lower, push_char, push_decimal, string_from_range};

verus! {

/// How many leading bytes of a file the fingerprint hashes (64 KB).
pub const HASHED_PREFIX: usize = 65536;

/// The SHA-256 digest of `data`.
pub uninterp spec fn sha256(data: Seq<u8>) -> Seq<u8>;

/// Calls `sha2::Sha256::digest`. Claimed: the result is the name `sha256`
/// of the data, and a digest is 32 bytes long.
#[verifier::external_body]
fn sha256_digest(data: &[u8]) -> (r: Vec<u8>)
    ensures
        r@ == sha256(data@),
        r@.len() == 32,
{
    Sha256::digest(data).to_vec()
}

proof fn lemma_hex_len(bytes: Seq<u8>)
    ensures
        hex_lower(bytes).len() == 2 * bytes.len(),
    decreases bytes.len(),
{
    if bytes.len() > 0 {
        lemma_hex_len(bytes.drop_last());
    }
}

fn hex_char(d: u8) -> (c: char)
    requires
        d < 16,
    ensures
        c == hex_digit_char(d as nat),
{
    if d < 10 {
        (48u8 + d) as char
    } else {
        (87u8 + d) as char
    }
}

/// Each byte as two lower-case hexadecimal digits.
pub fn hex_chars(bytes: &[u8]) -> (r: Vec<char>)
    ensures
        r@ == hex_lower(bytes@),
{
    let mut out: Vec<char> = Vec::new();
    let mut i: usize = 0;
    while i < bytes.len()
        invariant
            i <= bytes@.len(),
            out@ == hex_lower(bytes@.take(i as int)),
        decreases bytes.len() - i,
    {
        let b = bytes[i];
        out.push(hex_char(b / 16));
        out.push(hex_char(b % 16));
        i = i + 1;
        assert(bytes@.take(i as int).drop_last() =~= bytes@.take(i - 1));
    }
    assert(bytes@.take(bytes@.len() as int) =~= bytes@);
    out
}

/// The fingerprint text `"{size}:{mtime}:{hash}"`, where `hash` is the first
/// 16 hexadecimal digits of the SHA-256 of the file's first 64 KB.
pub open spec fn fingerprint_text(size: u64, modified_secs: u64, head: Seq<u8>) -> Seq<char> {
    decimal(size as nat) + seq![':'] + decimal(modified_secs as nat) + seq![':'] + hex_lower(
        sha256(prefix_bytes(head, HASHED_PREFIX as nat)),
    ).take(16)
}

/// Compute a lightweight fingerprint for change detection from a file's
/// size, modification time (seconds since the Unix epoch) and leading
/// bytes. Only the first 64 KB are hashed.
pub fn compute_fingerprint(size: u64, modified_secs: u64, head: &[u8]) -> (r: String)
    ensures
        r@ == fingerprint_text(size, modified_secs, head@),
{
    let digest = if head.len() <= HASHED_PREFIX {
        sha256_digest(head)
    } else {
        let mut part: Vec<u8> = Vec::new();
        let mut i: usize = 0;
        while i < HASHED_PREFIX
            invariant
                i <= HASHED_PREFIX < head@.len(),
                part@ == head@.take(i as int),
            decreases HASHED_PREFIX - i,
        {
            part.push(head[i]);
            i = i + 1;
            assert(part@ =~= head@.take(i as int));
        }
        sha256_digest(part.as_slice())
    };
    let hex = hex_chars(digest.as_slice());
    proof {
        lemma_hex_len(digest@);
    }
    let short = string_from_range(&hex, 0, 16);
    let mut r = String::new();
    push_decimal(&mut r, size);
    push_char(&mut r, ':');
    push_decimal(&mut r, modified_secs);
    push_char(&mut r, ':');
    r.append(short.as_str());
    assert(hex@.subrange(0, 16) =~= hex@.take(16));
    assert(r@ =~= fingerprint_text(size, modified_secs, head@));
    r
}

/// Why a file could not be fingerprinted; each carries the text of the
/// underlying error.
pub enum FingerprintError {
    Metadata(String),
    ModifiedTime(String),
    BeforeEpoch(String),
    Open(String),
    Read(String),
}

/// The message for a failed fingerprint.
pub open spec fn fingerprint_error_text(e: FingerprintError) -> Seq<char> {
    match e {
        FingerprintError::Metadata(m) => "metadata error: "@ + m@,
        FingerprintError::ModifiedTime(m) => "mtime error: "@ + m@,
        FingerprintError::BeforeEpoch(m) => "time error: "@ + m@,
        FingerprintError::Open(m) => "open error: "@ + m@,
        FingerprintError::Read(m) => "read error: "@ + m@,
    }
}

/// The message for a failed fingerprint.
pub fn fingerprint_error_message(e: FingerprintError) -> (r: String)
    ensures
        r@ == fingerprint_error_text(e),
{
    match e {
        FingerprintError::Metadata(m) => String::from_str("metadata error: ").concat(m.as_str()),
        FingerprintError::ModifiedTime(m) => String::from_str("mtime error: ").concat(m.as_str()),
        FingerprintError::BeforeEpoch(m) => String::from_str("time error: ").concat(m.as_str()),
        FingerprintError::Open(m) => String::from_str("open error: ").concat(m.as_str()),
        FingerprintError::Read(m) => String::from_str("read error: ").concat(m.as_str()),
    }
}

} // verus!

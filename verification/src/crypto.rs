//! Versioned, fully authenticated vault envelope. No attacker-selected KDF work.
//!
//! Header (little endian): magic[8], format u16, KDF u8, cipher u8,
//! Argon version u32, memory KiB u32, passes u32, lanes u32, salt[16],
//! nonce[24], ciphertext length u64, reserved[4]. All 80 bytes are AAD.
use vstd::prelude::*;

use argon2::{Algorithm, Argon2, Block, Params, Version};
use chacha20poly1305::aead::AeadInPlace;
use chacha20poly1305::{Key, KeyInit, XChaCha20Poly1305, XNonce};
use zeroize::Zeroizing;

use crate::entropy::random_bytes;
use crate::error::VaultError;
use crate::model::{validation_result, Vault};
use crate::text::utf8_len;

verus! {

pub const HEADER_SIZE: usize = 80;
pub const MAX_CIPHERTEXT_SIZE: usize = 16777216;
pub const MAX_FILE_SIZE: usize = 16777296;
pub const TAG_SIZE: usize = 16;
pub const SALT_SIZE: usize = 16;
pub const NONCE_SIZE: usize = 24;
pub const KEY_SIZE: usize = 32;
pub const FORMAT_VERSION: u16 = 1;
pub const KDF_ID: u8 = 1;
pub const CIPHER_ID: u8 = 1;
pub const ARGON_VERSION: u32 = 0x13;
pub const MEMORY_KIB: u32 = 65536;
pub const PASSES: u32 = 3;
pub const LANES: u32 = 4;

// ---------------------------------------------------------------------------
// Outside computations
// ---------------------------------------------------------------------------

/// The Argon2id (version 0x13) output of `out_len` bytes for a password,
/// salt and cost profile, as `argon2` computes it.
pub uninterp spec fn argon2id_key(
    password: Seq<u8>,
    salt: Seq<u8>,
    memory_kib: u32,
    passes: u32,
    lanes: u32,
    out_len: usize,
) -> Seq<u8>;

/// XChaCha20-Poly1305 ciphertext followed by its tag, as `chacha20poly1305` computes it.
pub uninterp spec fn xchacha_seal(
    key: Seq<u8>,
    nonce: Seq<u8>,
    aad: Seq<u8>,
    plaintext: Seq<u8>,
) -> Seq<u8>;

/// The plaintext of an authentic XChaCha20-Poly1305 ciphertext, or `None`
/// when its tag does not verify, as `chacha20poly1305` computes it.
pub uninterp spec fn xchacha_open(
    key: Seq<u8>,
    nonce: Seq<u8>,
    aad: Seq<u8>,
    ciphertext: Seq<u8>,
) -> Option<Seq<u8>>;

/// `argon2::Argon2::hash_password_into_with_memory` with Argon2id v0x13,
/// parameters from `argon2::Params::new`, and a work area the function owns
/// and wipes. Claims: the output is the named Argon2id result of exactly
/// these arguments; it is produced whenever the parameters are within the
/// ranges `Params::new` and `verify_inputs` accept. The work area is
/// allocated here, so the memory cost is bounded by `requires`; the lane
/// bound keeps `Params::new` from overflowing `8 * lanes`.
#[verifier::external_body]
fn argon2id(
    password: &[u8],
    salt: &[u8],
    memory_kib: u32,
    passes: u32,
    lanes: u32,
    out_len: usize,
) -> (out: Option<Vec<u8>>)
    requires
        memory_kib <= 65536,
        lanes <= 0xFFFFFF,
        out_len <= 1024,
    ensures
        out matches Some(k) ==> k@ == argon2id_key(
            password@,
            salt@,
            memory_kib,
            passes,
            lanes,
            out_len,
        ) && k@.len() == out_len,
        (8 <= memory_kib && 8 * lanes <= memory_kib && 1 <= passes && 1 <= lanes <= 0xFFFFFF && 4
            <= out_len && password@.len() <= 0xFFFF_FFFF && 8 <= salt@.len() <= 0xFFFF_FFFF)
            ==> out is Some,
{
    let params = Params::new(memory_kib, passes, lanes, Some(out_len)).ok()?;
    let mut memory = Zeroizing::new(vec![Block::default(); params.block_count()]);
    let argon = Argon2::new(Algorithm::Argon2id, Version::V0x13, params);
    let mut key = vec![0u8; out_len];
    argon.hash_password_into_with_memory(password, salt, &mut key, &mut *memory).ok()?;
    Some(key)
}

/// `XChaCha20Poly1305::encrypt_in_place` on a copy of `plaintext`. Claims:
/// the output is the named ciphertext (tag appended, 16 bytes longer); it
/// opens back to `plaintext` under the same key, nonce and associated data;
/// it is produced whenever the plaintext has fewer than 2^32 - 1 blocks of 64 bytes.
#[verifier::external_body]
fn aead_seal(key: &[u8], nonce: &[u8], aad: &[u8], plaintext: &[u8]) -> (out: Option<Vec<u8>>)
    requires
        key@.len() == 32,
        nonce@.len() == 24,
    ensures
        out matches Some(c) ==> {
            &&& c@ == xchacha_seal(key@, nonce@, aad@, plaintext@)
            &&& c@.len() == plaintext@.len() + 16
            &&& xchacha_open(key@, nonce@, aad@, c@) == Some(plaintext@)
        },
        plaintext@.len() / 64 < 0xFFFF_FFFF ==> out is Some,
{
    let cipher = XChaCha20Poly1305::new(Key::from_slice(key));
    let mut buffer = plaintext.to_vec();
    match cipher.encrypt_in_place(XNonce::from_slice(nonce), aad, &mut buffer) {
        Ok(()) => Some(buffer),
        Err(_) => None,
    }
}

/// `XChaCha20Poly1305::decrypt_in_place` on a copy of `ciphertext`. Claims:
/// the result is the named opening of exactly these arguments; a ciphertext
/// shorter than the tag never opens; an opened plaintext is 16 bytes shorter.
#[verifier::external_body]
fn aead_open(key: &[u8], nonce: &[u8], aad: &[u8], ciphertext: &[u8]) -> (out: Option<Vec<u8>>)
    requires
        key@.len() == 32,
        nonce@.len() == 24,
    ensures
        out matches Some(p) ==> xchacha_open(key@, nonce@, aad@, ciphertext@) == Some(p@),
        out is None ==> xchacha_open(key@, nonce@, aad@, ciphertext@) is None,
        ciphertext@.len() < 16 ==> out is None,
        out matches Some(p) ==> p@.len() + 16 == ciphertext@.len(),
{
    let cipher = XChaCha20Poly1305::new(Key::from_slice(key));
    let mut buffer = Zeroizing::new(ciphertext.to_vec());
    match cipher.decrypt_in_place(XNonce::from_slice(nonce), aad, &mut *buffer) {
        Ok(()) => Some(buffer.to_vec()),
        Err(_) => None,
    }
}

/// Overwrites a byte vector with zeros and empties it (`zeroize::Zeroize` for `Vec<u8>`).
#[verifier::external_body]
pub(crate) fn wipe_bytes(v: &mut Vec<u8>)
    ensures
        final(v)@ == Seq::<u8>::empty(),
{
    zeroize::Zeroize::zeroize(v);
}

// ---------------------------------------------------------------------------
// Header format
// ---------------------------------------------------------------------------

/// `b"SCVAULT\0"`.
pub open spec fn magic() -> Seq<u8> {
    seq![0x53u8, 0x43, 0x56, 0x41, 0x55, 0x4C, 0x54, 0x00]
}

/// Bytes 8..28: format version, algorithm identifiers and Argon2 profile.
pub open spec fn profile_bytes() -> Seq<u8> {
    seq![
        0x01u8, 0x00, 0x01, 0x01, 0x13, 0x00, 0x00, 0x00, 0x00, 0x00, 0x01, 0x00, 0x03, 0x00,
        0x00, 0x00, 0x04, 0x00, 0x00, 0x00,
    ]
}

/// Little-endian bytes of a `u64`.
pub open spec fn le64_bytes(v: u64) -> Seq<u8> {
    seq![
        v as u8,
        (v >> 8u64) as u8,
        (v >> 16u64) as u8,
        (v >> 24u64) as u8,
        (v >> 32u64) as u8,
        (v >> 40u64) as u8,
        (v >> 48u64) as u8,
        (v >> 56u64) as u8,
    ]
}

/// The `u64` that eight little-endian bytes encode.
pub open spec fn le64_value(b: Seq<u8>) -> u64 {
    (b[0] as u64) | ((b[1] as u64) << 8u64) | ((b[2] as u64) << 16u64) | ((b[3] as u64)
        << 24u64) | ((b[4] as u64) << 32u64) | ((b[5] as u64) << 40u64) | ((b[6] as u64)
        << 48u64) | ((b[7] as u64) << 56u64)
}

/// The 80 header bytes for a salt, nonce and ciphertext length.
pub open spec fn header_bytes(salt: Seq<u8>, nonce: Seq<u8>, ciphertext_len: u64) -> Seq<u8> {
    magic() + profile_bytes() + salt + nonce + le64_bytes(ciphertext_len) + seq![0u8, 0, 0, 0]
}

/// The ciphertext length a header declares.
pub open spec fn declared_length(bytes: Seq<u8>) -> u64 {
    le64_value(bytes.subrange(68, 76))
}

/// The first problem with a vault file's header and size, in the order they are checked.
pub open spec fn header_error(bytes: Seq<u8>) -> Option<VaultError> {
    if bytes.len() < HEADER_SIZE + TAG_SIZE {
        Some(VaultError::Truncated)
    } else if bytes.len() > MAX_FILE_SIZE {
        Some(VaultError::FileTooLarge)
    } else if bytes.subrange(0, 8) != magic() {
        Some(VaultError::NotAVault)
    } else if bytes.subrange(8, 10) != profile_bytes().subrange(0, 2) {
        Some(VaultError::UnsupportedVersion)
    } else if bytes[10] != KDF_ID || bytes[11] != CIPHER_ID {
        Some(VaultError::UnsupportedAlgorithms)
    } else if bytes.subrange(12, 28) != profile_bytes().subrange(4, 20) {
        Some(VaultError::UnsupportedProfile)
    } else if bytes.subrange(76, 80) != seq![0u8, 0, 0, 0] {
        Some(VaultError::UnsupportedFlags)
    } else if !(TAG_SIZE <= declared_length(bytes) <= MAX_CIPHERTEXT_SIZE) {
        Some(VaultError::InvalidCiphertextLength)
    } else if bytes.len() != HEADER_SIZE + declared_length(bytes) {
        Some(VaultError::LengthMismatch)
    } else {
        None
    }
}

/// Salt and nonce of a vault file whose header is accepted.
pub struct ParsedHeader {
    pub salt: Vec<u8>,
    pub nonce: Vec<u8>,
}

/// Little-endian encoding of a `u64`.
fn le64(v: u64) -> (b: Vec<u8>)
    ensures
        b@ == le64_bytes(v),
{
    let mut b: Vec<u8> = Vec::new();
    b.push(v as u8);
    b.push((v >> 8u64) as u8);
    b.push((v >> 16u64) as u8);
    b.push((v >> 24u64) as u8);
    b.push((v >> 32u64) as u8);
    b.push((v >> 40u64) as u8);
    b.push((v >> 48u64) as u8);
    b.push((v >> 56u64) as u8);
    assert(b@ =~= le64_bytes(v));
    b
}

proof fn lemma_le64_roundtrip(v: u64)
    ensures
        le64_value(le64_bytes(v)) == v,
{
    let b = le64_bytes(v);
    let b0 = v as u8;
    let b1 = (v >> 8u64) as u8;
    let b2 = (v >> 16u64) as u8;
    let b3 = (v >> 24u64) as u8;
    let b4 = (v >> 32u64) as u8;
    let b5 = (v >> 40u64) as u8;
    let b6 = (v >> 48u64) as u8;
    let b7 = (v >> 56u64) as u8;
    assert(b[0] == b0 && b[1] == b1 && b[2] == b2 && b[3] == b3);
    assert(b[4] == b4 && b[5] == b5 && b[6] == b6 && b[7] == b7);
    assert((b0 as u64) | ((b1 as u64) << 8u64) | ((b2 as u64) << 16u64) | ((b3 as u64) << 24u64)
        | ((b4 as u64) << 32u64) | ((b5 as u64) << 40u64) | ((b6 as u64) << 48u64) | ((b7 as u64)
        << 56u64) == v) by (bit_vector)
        requires
            b0 == v as u8,
            b1 == (v >> 8u64) as u8,
            b2 == (v >> 16u64) as u8,
            b3 == (v >> 24u64) as u8,
            b4 == (v >> 32u64) as u8,
            b5 == (v >> 40u64) as u8,
            b6 == (v >> 48u64) as u8,
            b7 == (v >> 56u64) as u8,
    ;
}

/// Appends `src` to `dst`.
fn append_bytes(dst: &mut Vec<u8>, src: &[u8])
    ensures
        final(dst)@ == old(dst)@ + src@,
{
    let ghost start = dst@;
    let mut i: usize = 0;
    while i < src.len()
        invariant
            i <= src@.len(),
            dst@ == start + src@.take(i as int),
        decreases src.len() - i,
    {
        dst.push(src[i]);
        i += 1;
        assert(dst@ =~= start + src@.take(i as int));
    }
    assert(src@.take(src@.len() as int) =~= src@);
}

/// `src[from..to]` as a vector.
fn copy_range(src: &[u8], from: usize, to: usize) -> (out: Vec<u8>)
    requires
        from <= to <= src@.len(),
    ensures
        out@ == src@.subrange(from as int, to as int),
{
    let mut out: Vec<u8> = Vec::new();
    let mut i = from;
    while i < to
        invariant
            from <= i <= to <= src@.len(),
            out@ == src@.subrange(from as int, i as int),
        decreases to - i,
    {
        out.push(src[i]);
        i += 1;
        assert(out@ =~= src@.subrange(from as int, i as int));
    }
    out
}

/// Whether `bytes[from..from + expected.len()]` equals `expected`.
fn range_equals(bytes: &[u8], from: usize, expected: &[u8]) -> (b: bool)
    requires
        from + expected@.len() <= bytes@.len(),
    ensures
        b == (bytes@.subrange(from as int, from + expected@.len()) == expected@),
{
    let total = bytes.len();
    let mut i: usize = 0;
    while i < expected.len()
        invariant
            i <= expected@.len(),
            total == bytes@.len(),
            from + expected@.len() <= bytes@.len(),
            forall|j: int| 0 <= j < i ==> bytes@[from + j] == expected@[j],
        decreases expected.len() - i,
    {
        if bytes[from + i] != expected[i] {
            assert(bytes@.subrange(from as int, from + expected@.len())[i as int] != expected@[i as int]);
            return false;
        }
        i += 1;
    }
    assert(bytes@.subrange(from as int, from + expected@.len()) =~= expected@);
    true
}

fn magic_bytes() -> (v: Vec<u8>)
    ensures
        v@ == magic(),
{
    let v = vec![0x53u8, 0x43, 0x56, 0x41, 0x55, 0x4C, 0x54, 0x00];
    assert(v@ =~= magic());
    v
}

fn profile() -> (v: Vec<u8>)
    ensures
        v@ == profile_bytes(),
{
    let v = vec![
        0x01u8, 0x00, 0x01, 0x01, 0x13, 0x00, 0x00, 0x00, 0x00, 0x00, 0x01, 0x00, 0x03, 0x00,
        0x00, 0x00, 0x04, 0x00, 0x00, 0x00,
    ];
    assert(v@ =~= profile_bytes());
    v
}

/// The 80-byte header for a salt, nonce and ciphertext length.
pub fn encode_header(salt: &[u8], nonce: &[u8], ciphertext_len: usize) -> (h: Vec<u8>)
    requires
        salt@.len() == SALT_SIZE,
        nonce@.len() == NONCE_SIZE,
    ensures
        h@ == header_bytes(salt@, nonce@, ciphertext_len as u64),
        h@.len() == HEADER_SIZE,
{
    let mut h = magic_bytes();
    let p = profile();
    append_bytes(&mut h, &p);
    append_bytes(&mut h, salt);
    append_bytes(&mut h, nonce);
    let len = le64(ciphertext_len as u64);
    append_bytes(&mut h, &len);
    let zeros = vec![0u8, 0, 0, 0];
    append_bytes(&mut h, &zeros);
    assert(zeros@ =~= seq![0u8, 0, 0, 0]);
    h
}

/// Reads eight little-endian bytes.
fn read_le64(bytes: &[u8], from: usize) -> (v: u64)
    requires
        from + 8 <= bytes@.len(),
    ensures
        v == le64_value(bytes@.subrange(from as int, from + 8)),
{
    let ghost s = bytes@.subrange(from as int, from + 8);
    assert(s[0] == bytes@[from as int] && s[7] == bytes@[from + 7]);
    (bytes[from] as u64) | ((bytes[from + 1] as u64) << 8u64) | ((bytes[from + 2] as u64)
        << 16u64) | ((bytes[from + 3] as u64) << 24u64) | ((bytes[from + 4] as u64) << 32u64)
        | ((bytes[from + 5] as u64) << 40u64) | ((bytes[from + 6] as u64) << 48u64) | ((bytes[from
        + 7] as u64) << 56u64)
}

impl ParsedHeader {
    /// Complete structural validation of a vault file, before any allocation
    /// sized by the file or any key derivation.
    pub fn parse(bytes: &[u8]) -> (r: Result<ParsedHeader, VaultError>)
        ensures
            header_error(bytes@) matches Some(e) ==> r == Err::<ParsedHeader, VaultError>(e),
            header_error(bytes@) is None ==> (r matches Ok(h) && h.salt@ == bytes@.subrange(28, 44)
                && h.nonce@ == bytes@.subrange(44, 68)),
    {
        if bytes.len() < HEADER_SIZE + TAG_SIZE {
            return Err(VaultError::Truncated);
        }
        if bytes.len() > MAX_FILE_SIZE {
            return Err(VaultError::FileTooLarge);
        }
        let m = magic_bytes();
        if !range_equals(bytes, 0, &m) {
            return Err(VaultError::NotAVault);
        }
        let p = profile();
        let version = copy_range(&p, 0, 2);
        if !range_equals(bytes, 8, &version) {
            return Err(VaultError::UnsupportedVersion);
        }
        if bytes[10] != KDF_ID || bytes[11] != CIPHER_ID {
            return Err(VaultError::UnsupportedAlgorithms);
        }
        let kdf = copy_range(&p, 4, 20);
        if !range_equals(bytes, 12, &kdf) {
            return Err(VaultError::UnsupportedProfile);
        }
        let zeros = vec![0u8, 0, 0, 0];
        assert(zeros@ =~= seq![0u8, 0, 0, 0]);
        if !range_equals(bytes, 76, &zeros) {
            return Err(VaultError::UnsupportedFlags);
        }
        let length = read_le64(bytes, 68);
        if length < TAG_SIZE as u64 || length > MAX_CIPHERTEXT_SIZE as u64 {
            return Err(VaultError::InvalidCiphertextLength);
        }
        if bytes.len() != HEADER_SIZE + length as usize {
            return Err(VaultError::LengthMismatch);
        }
        Ok(ParsedHeader { salt: copy_range(bytes, 28, 44), nonce: copy_range(bytes, 44, 68) })
    }
}

/// A header followed by a body of the length it declares is accepted, and
/// its salt and nonce are read back: parsing inverts encoding.
pub proof fn lemma_header_roundtrip(salt: Seq<u8>, nonce: Seq<u8>, body: Seq<u8>)
    requires
        salt.len() == SALT_SIZE,
        nonce.len() == NONCE_SIZE,
        TAG_SIZE <= body.len() <= MAX_CIPHERTEXT_SIZE,
    ensures
        header_error(header_bytes(salt, nonce, body.len() as u64) + body) is None,
        (header_bytes(salt, nonce, body.len() as u64) + body).subrange(28, 44) == salt,
        (header_bytes(salt, nonce, body.len() as u64) + body).subrange(44, 68) == nonce,
        (header_bytes(salt, nonce, body.len() as u64) + body).subrange(0, 80) == header_bytes(
            salt,
            nonce,
            body.len() as u64,
        ),
        (header_bytes(salt, nonce, body.len() as u64) + body).subrange(80, 80 + body.len() as int) == body,
{
    let h = header_bytes(salt, nonce, body.len() as u64);
    let b = h + body;
    let len = body.len() as u64;
    assert(h.len() == 80);
    assert(b.subrange(0, 8) =~= magic());
    assert(b.subrange(8, 10) =~= profile_bytes().subrange(0, 2));
    assert(b.subrange(12, 28) =~= profile_bytes().subrange(4, 20));
    assert(b.subrange(76, 80) =~= seq![0u8, 0, 0, 0]);
    assert(b.subrange(68, 76) =~= le64_bytes(len));
    lemma_le64_roundtrip(len);
    assert(b.subrange(28, 44) =~= salt);
    assert(b.subrange(44, 68) =~= nonce);
    assert(b.subrange(0, 80) =~= h);
    assert(b.subrange(80, 80 + body.len() as int) =~= body);
}

/// An accepted file is exactly a header for its own salt, nonce and length,
/// followed by that many ciphertext bytes.
#[verifier::rlimit(40)]
pub proof fn lemma_accepted_file_shape(bytes: Seq<u8>)
    requires
        header_error(bytes) is None,
    ensures
        bytes == header_bytes(
            bytes.subrange(28, 44),
            bytes.subrange(44, 68),
            (bytes.len() - HEADER_SIZE) as u64,
        ) + bytes.subrange(80, bytes.len() as int),
{
    let salt = bytes.subrange(28, 44);
    let nonce = bytes.subrange(44, 68);
    let len = declared_length(bytes);
    let lb = bytes.subrange(68, 76);
    let b0 = lb[0];
    let b1 = lb[1];
    let b2 = lb[2];
    let b3 = lb[3];
    let b4 = lb[4];
    let b5 = lb[5];
    let b6 = lb[6];
    let b7 = lb[7];
    assert(le64_bytes(len) =~= lb) by {
        assert(len == (b0 as u64) | ((b1 as u64) << 8u64) | ((b2 as u64) << 16u64) | ((b3 as u64)
            << 24u64) | ((b4 as u64) << 32u64) | ((b5 as u64) << 40u64) | ((b6 as u64) << 48u64) | ((
        b7 as u64) << 56u64));
        assert({
            &&& b0 == len as u8
            &&& b1 == (len >> 8u64) as u8
            &&& b2 == (len >> 16u64) as u8
            &&& b3 == (len >> 24u64) as u8
            &&& b4 == (len >> 32u64) as u8
            &&& b5 == (len >> 40u64) as u8
            &&& b6 == (len >> 48u64) as u8
            &&& b7 == (len >> 56u64) as u8
        }) by (bit_vector)
            requires
                len == (b0 as u64) | ((b1 as u64) << 8u64) | ((b2 as u64) << 16u64) | ((b3 as u64)
                    << 24u64) | ((b4 as u64) << 32u64) | ((b5 as u64) << 40u64) | ((b6 as u64)
                    << 48u64) | ((b7 as u64) << 56u64),
        ;
    }
    assert(profile_bytes() =~= bytes.subrange(8, 10) + seq![bytes[10], bytes[11]] + bytes.subrange(
        12,
        28,
    ));
    assert(bytes =~= header_bytes(salt, nonce, len) + bytes.subrange(80, bytes.len() as int));
}

// ---------------------------------------------------------------------------
// Sessions
// ---------------------------------------------------------------------------

/// The key a master password gives for a salt under the vault's Argon2id profile.
pub open spec fn master_key(master: Seq<char>, salt: Seq<u8>) -> Seq<u8> {
    argon2id_key(vstd::utf8::encode_utf8(master), salt, MEMORY_KIB, PASSES, LANES, KEY_SIZE)
}

/// Derives the vault key from a master password and salt.
fn derive_key(master: &str, salt: &[u8]) -> (k: Option<Vec<u8>>)
    requires
        salt@.len() == SALT_SIZE,
    ensures
        k matches Some(key) ==> key@ == master_key(master@, salt@) && key@.len() == KEY_SIZE,
        utf8_len(master@) <= 0xFFFF_FFFF ==> k is Some,
{
    proof {
        crate::text::lemma_utf8_len_encode(master@);
    }
    argon2id(master.as_bytes(), salt, MEMORY_KIB, PASSES, LANES, KEY_SIZE)
}

/// An unlocked vault: its decrypted records and the key and salt that seal it.
pub struct Session {
    pub data: Vault,
    key: Vec<u8>,
    salt: Vec<u8>,
}

/// A vault file that authenticated under a master password, before its
/// payload has been parsed into records.
pub struct Unsealed {
    plaintext: Vec<u8>,
    key: Vec<u8>,
    salt: Vec<u8>,
}

/// What unlocking a vault file with a master password gives: the first header
/// problem, the authentication failure, or the salt and authenticated plaintext.
pub open spec fn unlock_result(bytes: Seq<u8>, master: Seq<char>) -> Result<
    (Seq<u8>, Seq<u8>),
    VaultError,
> {
    match header_error(bytes) {
        Some(e) => Err(e),
        None => {
            let salt = bytes.subrange(28, 44);
            let nonce = bytes.subrange(44, 68);
            match xchacha_open(
                master_key(master, salt),
                nonce,
                bytes.subrange(0, 80),
                bytes.subrange(80, bytes.len() as int),
            ) {
                Some(p) => Ok((salt, p)),
                None => Err(VaultError::AuthenticationFailed),
            }
        },
    }
}

/// A sealed envelope: the header for `salt`, `nonce` and the ciphertext's
/// length, then the ciphertext of `payload` under that header as associated data.
pub open spec fn is_envelope(
    bytes: Seq<u8>,
    key: Seq<u8>,
    salt: Seq<u8>,
    nonce: Seq<u8>,
    payload: Seq<u8>,
) -> bool {
    let header = header_bytes(salt, nonce, (payload.len() + TAG_SIZE) as u64);
    let ciphertext = bytes.subrange(80, bytes.len() as int);
    &&& nonce.len() == NONCE_SIZE
    &&& bytes.len() == HEADER_SIZE + payload.len() + TAG_SIZE
    &&& bytes.subrange(0, 80) == header
    &&& ciphertext == xchacha_seal(key, nonce, header, payload)
    &&& xchacha_open(key, nonce, header, ciphertext) == Some(payload)
}

/// `bytes` is an envelope of `payload` under `key` and `salt`, for some nonce.
pub open spec fn sealed_by(bytes: Seq<u8>, key: Seq<u8>, salt: Seq<u8>, payload: Seq<u8>) -> bool {
    exists|nonce: Seq<u8>| is_envelope(bytes, key, salt, nonce, payload)
}

impl Session {
    pub closed spec fn key(&self) -> Seq<u8> {
        self.key@
    }

    /// The decrypted records.
    pub closed spec fn vault(&self) -> Vault {
        self.data
    }

    /// The decrypted records.
    pub fn data(&self) -> (d: &Vault)
        ensures
            *d == self.vault(),
    {
        &self.data
    }

    /// Makes `data` the committed in-memory state, keeping the key.
    pub fn replace_data(&mut self, data: Vault)
        ensures
            final(self).vault() == data,
            final(self).key() == old(self).key(),
            final(self).salt() == old(self).salt(),
            final(self).wf() == old(self).wf(),
    {
        self.data = data;
    }

    pub closed spec fn salt(&self) -> Seq<u8> {
        self.salt@
    }

    /// A new, empty vault keyed from `master` under a fresh random salt.
    pub fn create(master: &str) -> (r: Result<Session, VaultError>)
        ensures
            master@.len() == 0 ==> r == Err::<Session, VaultError>(VaultError::EmptyMaster),
            master@.len() > 0 && utf8_len(master@) <= 0xFFFF_FFFF ==> (r is Ok || r == Err::<
                Session,
                VaultError,
            >(VaultError::RandomnessUnavailable)),
            master@.len() > 0 ==> r is Ok || r == Err::<Session, VaultError>(
                VaultError::RandomnessUnavailable,
            ) || r == Err::<Session, VaultError>(VaultError::KeyDerivationFailed),
            r matches Ok(s) ==> {
                &&& s.vault().records@.len() == 0
                &&& s.wf()
                &&& s.salt().len() == SALT_SIZE
                &&& s.key() == master_key(master@, s.salt())
            },
    {
        if master.is_empty() {
            return Err(VaultError::EmptyMaster);
        }
        let salt = match random_bytes(SALT_SIZE) {
            Some(salt) => salt,
            None => return Err(VaultError::RandomnessUnavailable),
        };
        let key = match derive_key(master, &salt) {
            Some(key) => key,
            None => return Err(VaultError::KeyDerivationFailed),
        };
        Ok(Session { data: Vault::default(), key, salt })
    }

    /// Checks the header, derives the key and authenticates the file.
    /// The payload is returned for parsing; see [`Unsealed::into_session`].
    pub fn unlock(bytes: &[u8], master: &str) -> (r: Result<Unsealed, VaultError>)
        ensures
            r matches Ok(u) ==> unlock_result(bytes@, master@) == Ok::<(Seq<u8>, Seq<u8>), VaultError>(
                (u.salt(), u.payload()),
            ) && u.key() == master_key(master@, u.salt()) && u.wf(),
            r matches Err(e) ==> e == VaultError::KeyDerivationFailed || unlock_result(
                bytes@,
                master@,
            ) == Err::<(Seq<u8>, Seq<u8>), VaultError>(e),
            utf8_len(master@) <= 0xFFFF_FFFF ==> r is Ok == unlock_result(bytes@, master@) is Ok,
            utf8_len(master@) <= 0xFFFF_FFFF ==> (r matches Err(e) ==> unlock_result(
                bytes@,
                master@,
            ) == Err::<(Seq<u8>, Seq<u8>), VaultError>(e)),
    {
        let header = match ParsedHeader::parse(bytes) {
            Ok(h) => h,
            Err(e) => return Err(e),
        };
        let key = match derive_key(master, &header.salt) {
            Some(key) => key,
            None => return Err(VaultError::KeyDerivationFailed),
        };
        let aad = copy_range(bytes, 0, HEADER_SIZE);
        let ciphertext = copy_range(bytes, HEADER_SIZE, bytes.len());
        match aead_open(&key, &header.nonce, &aad, &ciphertext) {
            Some(plaintext) => Ok(Unsealed { plaintext, key, salt: header.salt }),
            None => Err(VaultError::AuthenticationFailed),
        }
    }

    /// Seals candidate data without changing the last committed in-memory
    /// state. `payload` is the serialized form of `data`.
    pub fn seal(&self, data: &Vault, payload: &[u8]) -> (r: Result<Vec<u8>, VaultError>)
        requires
            self.wf(),
        ensures
            validation_result(data.records@) matches Err(e) ==> r == Err::<Vec<u8>, VaultError>(e),
            validation_result(data.records@) is Ok && payload@.len() > MAX_CIPHERTEXT_SIZE
                - TAG_SIZE ==> r == Err::<Vec<u8>, VaultError>(VaultError::PayloadTooLarge),
            validation_result(data.records@) is Ok && payload@.len() <= MAX_CIPHERTEXT_SIZE
                - TAG_SIZE ==> (r is Ok || r == Err::<Vec<u8>, VaultError>(
                VaultError::RandomnessUnavailable,
            )),
            r matches Ok(out) ==> sealed_by(out@, self.key(), self.salt(), payload@),
    {
        match data.validate() {
            Ok(()) => {},
            Err(e) => return Err(e),
        }
        if payload.len() > MAX_CIPHERTEXT_SIZE - TAG_SIZE {
            return Err(VaultError::PayloadTooLarge);
        }
        self.encrypt_payload(payload)
    }

    pub closed spec fn wf(&self) -> bool {
        self.key@.len() == KEY_SIZE && self.salt@.len() == SALT_SIZE
    }

    /// A consistent session holds a full-length key and salt.
    pub proof fn lemma_wf_sizes(&self)
        requires
            self.wf(),
        ensures
            self.key().len() == KEY_SIZE,
            self.salt().len() == SALT_SIZE,
    {
    }

    /// Encrypts a payload under a fresh random nonce.
    pub fn encrypt_payload(&self, payload: &[u8]) -> (r: Result<Vec<u8>, VaultError>)
        requires
            self.wf(),
        ensures
            payload@.len() + TAG_SIZE > MAX_CIPHERTEXT_SIZE ==> r == Err::<Vec<u8>, VaultError>(
                VaultError::VaultTooLarge,
            ),
            payload@.len() + TAG_SIZE <= MAX_CIPHERTEXT_SIZE ==> (r is Ok || r == Err::<
                Vec<u8>,
                VaultError,
            >(VaultError::RandomnessUnavailable)),
            r matches Ok(out) ==> sealed_by(out@, self.key(), self.salt(), payload@),
    {
        if payload.len() > MAX_CIPHERTEXT_SIZE - TAG_SIZE {
            return Err(VaultError::VaultTooLarge);
        }
        let nonce = match random_bytes(NONCE_SIZE) {
            Some(nonce) => nonce,
            None => return Err(VaultError::RandomnessUnavailable),
        };
        let r = self.encrypt_with_nonce(payload, &nonce);
        proof {
            if r is Ok {
                assert(is_envelope(r->Ok_0@, self.key(), self.salt(), nonce@, payload@));
            }
        }
        r
    }

    /// The envelope of `payload` under this session's key and salt and the
    /// given nonce: the header, then the authenticated ciphertext.
    pub fn encrypt_with_nonce(&self, payload: &[u8], nonce: &[u8]) -> (r: Result<Vec<u8>, VaultError>)
        requires
            self.wf(),
            nonce@.len() == NONCE_SIZE,
        ensures
            payload@.len() + TAG_SIZE > MAX_CIPHERTEXT_SIZE ==> r == Err::<Vec<u8>, VaultError>(
                VaultError::VaultTooLarge,
            ),
            payload@.len() + TAG_SIZE <= MAX_CIPHERTEXT_SIZE ==> (r matches Ok(out) && is_envelope(
                out@,
                self.key(),
                self.salt(),
                nonce@,
                payload@,
            )),
    {
        if payload.len() > MAX_CIPHERTEXT_SIZE - TAG_SIZE {
            return Err(VaultError::VaultTooLarge);
        }
        let ciphertext_len = payload.len() + TAG_SIZE;
        let header = encode_header(&self.salt, nonce, ciphertext_len);
        let ciphertext = match aead_seal(&self.key, nonce, &header, payload) {
            Some(c) => c,
            None => {
                assert(payload@.len() / 64 < 0xFFFF_FFFF);
                return Err(VaultError::EncryptionFailed);
            },
        };
        let mut out = header;
        append_bytes(&mut out, &ciphertext);
        proof {
            assert(out@.subrange(0, 80) =~= header@);
            assert(out@.subrange(80, out@.len() as int) =~= ciphertext@);
        }
        Ok(out)
    }

    /// Wipes the key and salt and empties the records.
    pub fn zeroize(&mut self)
        ensures
            final(self).vault().records@.len() == 0,
            final(self).key().len() == 0,
            final(self).salt().len() == 0,
    {
        wipe_bytes(&mut self.key);
        wipe_bytes(&mut self.salt);
        self.data.zeroize();
    }
}

impl Unsealed {
    pub closed spec fn key(&self) -> Seq<u8> {
        self.key@
    }

    pub closed spec fn wf(&self) -> bool {
        self.key@.len() == KEY_SIZE && self.salt@.len() == SALT_SIZE
    }

    /// The authenticated plaintext.
    pub closed spec fn payload(&self) -> Seq<u8> {
        self.plaintext@
    }

    /// The authenticated plaintext, for parsing.
    pub fn plaintext(&self) -> (p: &[u8])
        ensures
            p@ == self.payload(),
    {
        self.plaintext.as_slice()
    }

    pub closed spec fn salt(&self) -> Seq<u8> {
        self.salt@
    }

    /// Accepts the parsed payload when it is present and valid. Parse errors
    /// and validation errors are reported alike, without their details.
    pub fn into_session(self, parsed: Option<Vault>) -> (r: Result<Session, VaultError>)
        ensures
            parsed is None ==> r == Err::<Session, VaultError>(VaultError::InvalidPayload),
            parsed matches Some(v) ==> (validation_result(v.records@) is Err ==> r == Err::<
                Session,
                VaultError,
            >(VaultError::InvalidPayload)),
            parsed matches Some(v) ==> (validation_result(v.records@) is Ok ==> (r matches Ok(s)
                && s.vault() == v && s.key() == self.key() && s.salt() == self.salt() && (self.wf()
                ==> s.wf()))),
    {
        match parsed {
            None => Err(VaultError::InvalidPayload),
            Some(data) => {
                if data.validate().is_err() {
                    return Err(VaultError::InvalidPayload);
                }
                Ok(Session { data, key: self.key, salt: self.salt })
            },
        }
    }
}

/// Sealing then unlocking with the master password that keyed the session
/// gives back the sealed payload: what a read gives back of a write.
pub proof fn lemma_seal_unlock_roundtrip(
    bytes: Seq<u8>,
    master: Seq<char>,
    salt: Seq<u8>,
    nonce: Seq<u8>,
    payload: Seq<u8>,
)
    requires
        salt.len() == SALT_SIZE,
        payload.len() + TAG_SIZE <= MAX_CIPHERTEXT_SIZE,
        is_envelope(bytes, master_key(master, salt), salt, nonce, payload),
    ensures
        unlock_result(bytes, master) == Ok::<(Seq<u8>, Seq<u8>), VaultError>((salt, payload)),
{
    let body = bytes.subrange(80, bytes.len() as int);
    let header = header_bytes(salt, nonce, body.len() as u64);
    assert(bytes =~= header + body);
    lemma_header_roundtrip(salt, nonce, body);
}

// ---------------------------------------------------------------------------
// Bounded serialization buffer
// ---------------------------------------------------------------------------

/// A byte buffer that refuses to grow past `limit`, so that serialization
/// stops as soon as its output would exceed the envelope's size bound.
pub struct BoundedWriter {
    pub buffer: Vec<u8>,
    pub limit: usize,
}

impl BoundedWriter {
    /// Appends `bytes` when the buffer stays within `limit`; otherwise leaves
    /// the buffer unchanged and returns `false`.
    pub fn write(&mut self, bytes: &[u8]) -> (ok: bool)
        ensures
            ok == (bytes@.len() <= (if old(self).limit >= old(self).buffer@.len() {
                old(self).limit - old(self).buffer@.len()
            } else {
                0
            })),
            final(self).limit == old(self).limit,
            ok ==> final(self).buffer@ == old(self).buffer@ + bytes@,
            !ok ==> final(self).buffer@ == old(self).buffer@,
            old(self).buffer@.len() <= old(self).limit ==> final(self).buffer@.len()
                <= final(self).limit,
    {
        let room = if self.limit >= self.buffer.len() {
            self.limit - self.buffer.len()
        } else {
            0
        };
        if bytes.len() > room {
            return false;
        }
        append_bytes(&mut self.buffer, bytes);
        true
    }
}

} // verus!

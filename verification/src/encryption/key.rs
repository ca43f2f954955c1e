//! Encryption keys derived from a password.
//!
//! Revisions 2 to 4 derive the key with MD5; revision 5 with SHA-256;
//! revision 6 with the iterative hash that rotates SHA-256, SHA-384 and
//! SHA-512 around AES-128 rounds.
use vstd::prelude::*;
use aes::cipher::{BlockDecryptMut, BlockEncryptMut, KeyIvInit};
use crate::encryption::rc4::{rc4, rc4_spec};
use crate::error::{append_str, PdfError, PdfResult};
use crate::fonts::cmap::bytes_eq;
use crate::unicode::string_from_chars;

verus! {

/// The padding string of password-based key derivation (32 bytes).
pub const PADDING: [u8; 32] = [
    0x28, 0xBF, 0x4E, 0x5E, 0x4E, 0x75, 0x8A, 0x41, 0x64, 0x00, 0x4E, 0x56, 0xFF, 0xFA, 0x01, 0x08,
    0x2E, 0x2E, 0x00, 0xB6, 0xD0, 0x68, 0x3E, 0x80, 0x2F, 0x0C, 0xA9, 0xFE, 0x64, 0x53, 0x69, 0x7A,
];

/// The padding string as a sequence.
pub open spec fn padding() -> Seq<u8> {
    PADDING@
}

fn padding_vec() -> (r: Vec<u8>)
    ensures
        r@ == padding(),
        r@.len() == 32,
{
    let mut v: Vec<u8> = Vec::new();
    let mut i: usize = 0;
    while i < 32
        invariant
            i <= 32,
            v@ =~= PADDING@.take(i as int),
        decreases 32 - i,
    {
        v.push(PADDING[i]);
        i = i + 1;
    }
    assert(PADDING@.take(32) =~= PADDING@);
    v
}

// ---------------------------------------------------------------------------
// Outside hashes and ciphers
// ---------------------------------------------------------------------------

/// The MD5 digest of `data`.
pub uninterp spec fn md5_of(data: Seq<u8>) -> Seq<u8>;

/// The SHA-256 digest of `data`.
pub uninterp spec fn sha256_of(data: Seq<u8>) -> Seq<u8>;

/// The SHA-384 digest of `data`.
pub uninterp spec fn sha384_of(data: Seq<u8>) -> Seq<u8>;

/// The SHA-512 digest of `data`.
pub uninterp spec fn sha512_of(data: Seq<u8>) -> Seq<u8>;

/// AES-128-CBC encryption of block-aligned `data`, without padding.
pub uninterp spec fn aes128_cbc_encrypted(key: Seq<u8>, iv: Seq<u8>, data: Seq<u8>) -> Seq<u8>;

/// AES-256-CBC decryption of block-aligned `data`, without padding.
pub uninterp spec fn aes256_cbc_decrypted(key: Seq<u8>, iv: Seq<u8>, data: Seq<u8>) -> Seq<u8>;

/// `md5::compute`: claims the digest is a function of the data, 16 bytes
/// long (the type `md5::Digest` holds `[u8; 16]`).
#[verifier::external_body]
fn md5_digest(data: &[u8]) -> (r: Vec<u8>)
    ensures
        r@ == md5_of(data@),
        r@.len() == 16,
{
    md5::compute(data).0.to_vec()
}

/// `sha2::Sha256::digest`: a function of the data, 32 bytes long.
#[verifier::external_body]
fn sha256_digest(data: &[u8]) -> (r: Vec<u8>)
    ensures
        r@ == sha256_of(data@),
        r@.len() == 32,
{
    <sha2::Sha256 as sha2::Digest>::digest(data).to_vec()
}

/// `sha2::Sha384::digest`: a function of the data, 48 bytes long.
#[verifier::external_body]
fn sha384_digest(data: &[u8]) -> (r: Vec<u8>)
    ensures
        r@ == sha384_of(data@),
        r@.len() == 48,
{
    <sha2::Sha384 as sha2::Digest>::digest(data).to_vec()
}

/// `sha2::Sha512::digest`: a function of the data, 64 bytes long.
#[verifier::external_body]
fn sha512_digest(data: &[u8]) -> (r: Vec<u8>)
    ensures
        r@ == sha512_of(data@),
        r@.len() == 64,
{
    <sha2::Sha512 as sha2::Digest>::digest(data).to_vec()
}

/// `cbc::Encryptor::<aes::Aes128>::new_from_slices` then
/// `encrypt_padded_mut::<NoPadding>` over the whole buffer. With a
/// 16-byte key and IV and block-aligned data neither step fails (the
/// source checks only those lengths); the ciphertext has the length of
/// the data and is a function of key, IV and data.
#[verifier::external_body]
fn aes128_cbc_encrypt(key: &[u8], iv: &[u8], data: &[u8]) -> (r: Vec<u8>)
    requires
        key@.len() == 16,
        iv@.len() == 16,
        data@.len() % 16 == 0,
    ensures
        r@ == aes128_cbc_encrypted(key@, iv@, data@),
        r@.len() == data@.len(),
{
    let enc = cbc::Encryptor::<aes::Aes128>::new_from_slices(key, iv).unwrap();
    let mut buf = data.to_vec();
    let n = buf.len();
    enc.encrypt_padded_mut::<aes::cipher::block_padding::NoPadding>(&mut buf, n).unwrap().to_vec()
}

/// `cbc::Decryptor::<aes::Aes256>::new_from_slices` then
/// `decrypt_padded_mut::<NoPadding>`. Fails, with the error's text, where
/// the key is not 32 bytes or the IV not 16; otherwise the plaintext has
/// the length of the data and is a function of key, IV and data.
#[verifier::external_body]
fn aes256_cbc_decrypt(key: &[u8], iv: &[u8], data: &[u8]) -> (r: Result<Vec<u8>, String>)
    requires
        data@.len() % 16 == 0,
    ensures
        (key@.len() == 32 && iv@.len() == 16) <==> r is Ok,
        r matches Ok(v) ==> v@ == aes256_cbc_decrypted(key@, iv@, data@) && v@.len() == data@.len(),
{
    let dec = match cbc::Decryptor::<aes::Aes256>::new_from_slices(key, iv) {
        Ok(d) => d,
        Err(e) => return Err(format!("{}", e)),
    };
    let mut buf = data.to_vec();
    match dec.decrypt_padded_mut::<aes::cipher::block_padding::NoPadding>(&mut buf) {
        Ok(p) => Ok(p.to_vec()),
        Err(e) => Err(format!("{}", e)),
    }
}

// ---------------------------------------------------------------------------
// Revisions 2 to 4
// ---------------------------------------------------------------------------

/// The smaller of two lengths.
pub open spec fn min_nat(a: nat, b: nat) -> nat {
    if a < b {
        a
    } else {
        b
    }
}

/// A password padded or truncated to 32 bytes.
pub open spec fn padded_password(password: Seq<u8>) -> Seq<u8> {
    let n = min_nat(password.len(), 32);
    password.take(n as int) + padding().take(32 - n)
}

/// The four little-endian bytes of `v`.
pub open spec fn le4(v: u32) -> Seq<u8> {
    seq![(v % 256) as u8, ((v / 256) % 256) as u8, ((v / 65536) % 256) as u8, (v / 16777216) as u8]
}

/// What the first MD5 of key derivation hashes: padded password, `/O`,
/// `/P`, the first file identifier, and for revision 4 and up with
/// metadata left clear, four 0xFF bytes.
pub open spec fn r2_r4_input(
    password: Seq<u8>,
    o_value: Seq<u8>,
    p_value: i32,
    id_first: Seq<u8>,
    revision: u8,
    encrypt_metadata: bool,
) -> Seq<u8> {
    padded_password(password) + o_value + le4(p_value as u32) + id_first + (if revision >= 4
        && !encrypt_metadata {
        seq![0xFFu8, 0xFF, 0xFF, 0xFF]
    } else {
        Seq::empty()
    })
}

/// `n` further rounds of MD5 over the first `key_bytes` bytes.
pub open spec fn md5_rounds(digest: Seq<u8>, key_bytes: nat, n: nat) -> Seq<u8>
    decreases n,
{
    if n == 0 {
        digest
    } else {
        md5_rounds(md5_of(digest.take(key_bytes as int)), key_bytes, (n - 1) as nat)
    }
}

/// The revision 2 to 4 file key: the MD5 of the derivation input, from
/// revision 3 on hashed 50 more times, cut to `key_length / 8` bytes.
pub open spec fn r2_r4_key(
    password: Seq<u8>,
    o_value: Seq<u8>,
    p_value: i32,
    id_first: Seq<u8>,
    key_length: nat,
    revision: u8,
    encrypt_metadata: bool,
) -> Seq<u8> {
    let key_bytes = key_length / 8;
    let first = md5_of(r2_r4_input(password, o_value, p_value, id_first, revision, encrypt_metadata));
    let d = if revision >= 3 {
        md5_rounds(first, key_bytes, 50)
    } else {
        first
    };
    d.take(key_bytes as int)
}

/// An encryption key derived from a password.
#[derive(Debug, Clone)]
pub struct EncryptionKey {
    /// The derived key bytes.
    pub key: Vec<u8>,
}

fn copy_prefix(v: &Vec<u8>, n: usize) -> (r: Vec<u8>)
    requires
        n <= v@.len(),
    ensures
        r@ == v@.take(n as int),
{
    let r = crate::content::lexer::copy_bytes(v.as_slice(), 0, n);
    assert(r@ =~= v@.take(n as int));
    r
}

fn append_bytes(out: &mut Vec<u8>, b: &[u8])
    ensures
        final(out)@ == old(out)@ + b@,
{
    let ghost start = out@;
    let mut i: usize = 0;
    while i < b.len()
        invariant
            i <= b@.len(),
            out@ =~= start + b@.take(i as int),
        decreases b@.len() - i,
    {
        out.push(b[i]);
        i = i + 1;
    }
    assert(b@.take(b@.len() as int) =~= b@);
}

impl EncryptionKey {
    /// Computes the file key of revisions 2 to 4 (MD5-based).
    pub fn compute_r2_r4(
        password: &[u8],
        o_value: &[u8],
        p_value: i32,
        id_first: &[u8],
        key_length: usize,
        revision: u8,
        encrypt_metadata: bool,
    ) -> (r: PdfResult<Self>)
        requires
            key_length / 8 <= 16,
        ensures
            r matches Ok(k) && k.key@ == r2_r4_key(
                password@,
                o_value@,
                p_value,
                id_first@,
                key_length as nat,
                revision,
                encrypt_metadata,
            ),
    {
        let key_bytes = key_length / 8;
        let n = if password.len() < 32 { password.len() } else { 32 };
        let mut input = crate::content::lexer::copy_bytes(password, 0, n);
        let pad = padding_vec();
        let tail = crate::content::lexer::copy_bytes(pad.as_slice(), 0, 32 - n);
        append_bytes(&mut input, tail.as_slice());
        assert(input@ =~= padded_password(password@));
        append_bytes(&mut input, o_value);
        let pu = p_value as u32;
        let le: Vec<u8> = vec![(pu % 256) as u8, ((pu / 256) % 256) as u8, ((pu / 65536) % 256) as u8, (pu / 16777216) as u8];
        assert(le@ =~= le4(pu));
        append_bytes(&mut input, le.as_slice());
        append_bytes(&mut input, id_first);
        if revision >= 4 && !encrypt_metadata {
            let ff: Vec<u8> = vec![0xFF, 0xFF, 0xFF, 0xFF];
            append_bytes(&mut input, ff.as_slice());
        }
        assert(input@ =~= r2_r4_input(password@, o_value@, p_value, id_first@, revision, encrypt_metadata));
        let mut digest = md5_digest(input.as_slice());
        if revision >= 3 {
            let ghost first = digest@;
            let mut round: usize = 0;
            while round < 50
                invariant
                    round <= 50,
                    key_bytes <= 16,
                    digest@.len() == 16,
                    md5_rounds(first, key_bytes as nat, 50) == md5_rounds(digest@, key_bytes as nat, (50 - round) as nat),
                decreases 50 - round,
            {
                let part = copy_prefix(&digest, key_bytes);
                digest = md5_digest(part.as_slice());
                round = round + 1;
            }
        }
        Ok(EncryptionKey { key: copy_prefix(&digest, key_bytes) })
    }
}

// ---------------------------------------------------------------------------
// Password checks of revisions 2 to 4
// ---------------------------------------------------------------------------

/// The key with every byte exclusive-or'ed with `i`.
pub open spec fn xor_key(key: Seq<u8>, i: u8) -> Seq<u8> {
    Seq::new(key.len(), |m: int| key[m] ^ i)
}

/// Rounds `i` to 19 of the revision 3 and 4 check: RC4 under the key
/// exclusive-or'ed with the round number.
pub open spec fn check_rounds(key: Seq<u8>, data: Seq<u8>, i: nat) -> Seq<u8>
    decreases 20 - i,
{
    if i >= 20 {
        data
    } else {
        check_rounds(key, rc4_spec(xor_key(key, i as u8), data), i + 1)
    }
}

/// The value that the `/U` entry of revisions 3 and 4 begins with: the
/// MD5 of padding and file identifier, RC4 under the key, then 19 more
/// RC4 rounds.
pub open spec fn r3_r4_check(key: Seq<u8>, id_first: Seq<u8>) -> Seq<u8> {
    check_rounds(key, rc4_spec(key, md5_of(padding() + id_first)), 1)
}

/// Whether the key matches the `/U` entry: for revision 2, `/U` is RC4
/// of the padding; for revisions 3 and 4 its first 16 bytes are those of
/// the check value; other revisions never match.
pub open spec fn user_password_matches(key: Seq<u8>, u_value: Seq<u8>, id_first: Seq<u8>, revision: u8) -> bool {
    if revision == 2 {
        rc4_spec(key, padding()) == u_value
    } else if revision == 3 || revision == 4 {
        r3_r4_check(key, id_first).take(16) == u_value.take(16)
    } else {
        false
    }
}

proof fn lemma_rc4_len(key: Seq<u8>, data: Seq<u8>)
    ensures
        rc4_spec(key, data).len() == data.len(),
{
}

fn xor_all(key: &Vec<u8>, i: u8) -> (r: Vec<u8>)
    ensures
        r@ == xor_key(key@, i),
{
    let mut out: Vec<u8> = Vec::new();
    let mut m: usize = 0;
    while m < key.len()
        invariant
            m <= key@.len(),
            out@.len() == m,
            forall|t: int| 0 <= t < m ==> out@[t] == key@[t] ^ i,
        decreases key@.len() - m,
    {
        out.push(key[m] ^ i);
        m = m + 1;
    }
    assert(out@ =~= xor_key(key@, i));
    out
}

impl EncryptionKey {
    /// Checks a user password of revisions 2 to 4 against the `/U` entry.
    pub fn validate_user_password_r2_r4(&self, u_value: &[u8], id_first: &[u8], revision: u8) -> (r: bool)
        requires
            (revision == 3 || revision == 4) ==> u_value@.len() >= 16,
        ensures
            r == user_password_matches(self.key@, u_value@, id_first@, revision),
    {
        if revision == 2 {
            let pad = padding_vec();
            let computed = rc4(self.key.as_slice(), pad.as_slice());
            bytes_eq(computed.as_slice(), u_value)
        } else if revision == 3 || revision == 4 {
            let mut input = padding_vec();
            append_bytes(&mut input, id_first);
            let hash = md5_digest(input.as_slice());
            let mut result = rc4(self.key.as_slice(), hash.as_slice());
            proof {
                lemma_rc4_len(self.key@, hash@);
            }
            let mut i: u8 = 1;
            while i <= 19
                invariant
                    1 <= i <= 20,
                    result@.len() == 16,
                    r3_r4_check(self.key@, id_first@) == check_rounds(self.key@, result@, i as nat),
                decreases 20 - i,
            {
                let modified = xor_all(&self.key, i);
                proof {
                    lemma_rc4_len(modified@, result@);
                }
                result = rc4(modified.as_slice(), result.as_slice());
                i = i + 1;
            }
            let a = copy_prefix(&result, 16);
            let b = crate::content::lexer::copy_bytes(u_value, 0, 16);
            assert(b@ =~= u_value@.take(16));
            bytes_eq(a.as_slice(), b.as_slice())
        } else {
            false
        }
    }
}

// ---------------------------------------------------------------------------
// Per-object keys
// ---------------------------------------------------------------------------

/// The bytes that the per-object key hashes after the file key: the low
/// three bytes of the object number and the two of the generation, low
/// first, then `sAlT` for AES.
pub open spec fn object_key_suffix(obj_num: u32, gen_num: u16, aes: bool) -> Seq<u8> {
    seq![
        (obj_num % 256) as u8,
        ((obj_num / 256) % 256) as u8,
        ((obj_num / 65536) % 256) as u8,
        (gen_num % 256) as u8,
        (gen_num / 256) as u8,
    ] + (if aes {
        seq![0x73u8, 0x41, 0x6C, 0x54]
    } else {
        Seq::empty()
    })
}

/// The per-object key: the MD5 of file key and suffix, cut to the file
/// key's length plus 5, at most 16 bytes.
pub open spec fn object_key_spec(file_key: Seq<u8>, obj_num: u32, gen_num: u16, aes: bool) -> Seq<u8> {
    md5_of(file_key + object_key_suffix(obj_num, gen_num, aes)).take(min_nat(file_key.len() + 5, 16) as int)
}

/// The per-object key (ISO 32000-1, Algorithm 1) is the MD5 of the file
/// key followed by any five bytes that hold the object number's low 24
/// bits and the generation number in little-endian order (low byte
/// first), then `sAlT` for AES, cut to the file key's length plus 5 and at
/// most 16 bytes.
pub proof fn lemma_object_key_little_endian(file_key: Seq<u8>, obj_num: u32, gen_num: u16, aes: bool, le: Seq<u8>)
    requires
        le.len() == 5,
        le[0] as int + 256 * (le[1] as int) + 65536 * (le[2] as int) == obj_num as int % 16777216,
        le[3] as int + 256 * (le[4] as int) == gen_num as int,
    ensures
        object_key_spec(file_key, obj_num, gen_num, aes) == md5_of(
            file_key + le + (if aes {
                seq![0x73u8, 0x41u8, 0x6Cu8, 0x54u8]
            } else {
                Seq::<u8>::empty()
            }),
        ).take(min_nat(file_key.len() + 5, 16) as int),
{
    let n = obj_num as int;
    let g = gen_num as int;
    let a = le[0] as int;
    let b = le[1] as int;
    let c = le[2] as int;
    let x = le[3] as int;
    let y = le[4] as int;
    assert(a == n % 256 && b == (n / 256) % 256 && c == (n / 65536) % 256) by (nonlinear_arith)
        requires
            0 <= a < 256,
            0 <= b < 256,
            0 <= c < 256,
            0 <= n,
            a + 256 * b + 65536 * c == n % 16777216,
    {
        assert(n == (n / 16777216) * 16777216 + n % 16777216);
        let q = n / 16777216;
        assert(n == q * 16777216 + a + 256 * b + 65536 * c);
        assert(n / 256 == q * 65536 + b + 256 * c);
        assert(n / 65536 == q * 256 + c);
    }
    assert(x == g % 256 && y == g / 256) by (nonlinear_arith)
        requires
            0 <= x < 256,
            0 <= y < 256,
            x + 256 * y == g,
    {
    }
    let salt: Seq<u8> = if aes {
        seq![0x73u8, 0x41u8, 0x6Cu8, 0x54u8]
    } else {
        Seq::<u8>::empty()
    };
    assert(object_key_suffix(obj_num, gen_num, aes) =~= le + salt);
    assert(file_key + object_key_suffix(obj_num, gen_num, aes) =~= file_key + le + salt);
}

/// Derives the key of one object from the file key.
pub fn object_key(file_key: &[u8], obj_num: u32, gen_num: u16, aes: bool) -> (r: Vec<u8>)
    ensures
        r@ == object_key_spec(file_key@, obj_num, gen_num, aes),
{
    let mut data = crate::content::lexer::copy_bytes(file_key, 0, file_key.len());
    let suffix: Vec<u8> = vec![
        (obj_num % 256) as u8,
        ((obj_num / 256) % 256) as u8,
        ((obj_num / 65536) % 256) as u8,
        (gen_num % 256) as u8,
        (gen_num / 256) as u8,
    ];
    append_bytes(&mut data, suffix.as_slice());
    if aes {
        let salt: Vec<u8> = vec![0x73, 0x41, 0x6C, 0x54];
        append_bytes(&mut data, salt.as_slice());
    }
    assert(data@ =~= file_key@ + object_key_suffix(obj_num, gen_num, aes));
    let digest = md5_digest(data.as_slice());
    let key_len: usize = if file_key.len() >= 11 { 16 } else { file_key.len() + 5 };
    copy_prefix(&digest, key_len)
}

// ---------------------------------------------------------------------------
// Revisions 5 and 6
// ---------------------------------------------------------------------------

/// The longest password that revisions 5 and 6 read, in bytes.
pub const MAX_PASSWORD_LEN: usize = 127;

/// A password cut to 127 bytes.
pub open spec fn truncated_password(password: Seq<u8>) -> Seq<u8> {
    password.take(min_nat(password.len(), 127) as int)
}

/// The revision 5 hash: SHA-256 of password, salt and extra data.
pub open spec fn hash_r5_spec(password: Seq<u8>, salt: Seq<u8>, extra: Seq<u8>) -> Seq<u8> {
    sha256_of(password + salt + extra)
}

/// `b` repeated `n` times.
pub open spec fn repeat(b: Seq<u8>, n: nat) -> Seq<u8>
    decreases n,
{
    if n == 0 {
        Seq::empty()
    } else {
        repeat(b, (n - 1) as nat) + b
    }
}

/// The sum of the bytes of `s`.
pub open spec fn byte_sum(s: Seq<u8>) -> nat
    decreases s.len(),
{
    if s.len() == 0 {
        0
    } else {
        byte_sum(s.drop_last()) + (s.last() as nat)
    }
}

/// One round of the revision 6 hash: the AES-128-CBC encryption (key
/// `k[0..16]`, IV `k[16..32]`) of `password || k || extra` repeated 64
/// times, hashed with SHA-256, SHA-384 or SHA-512 as the sum of its
/// first 16 bytes is 0, 1 or 2 modulo 3; with the last encrypted byte.
pub open spec fn round_2b(password: Seq<u8>, k: Seq<u8>, extra: Seq<u8>) -> (Seq<u8>, u8) {
    let enc = aes128_cbc_encrypted(k.take(16), k.subrange(16, 32), repeat(password + k + extra, 64));
    let rem = byte_sum(enc.take(16)) % 3;
    let last: u8 = if enc.len() > 0 {
        enc.last()
    } else {
        0
    };
    let next = if rem == 0 {
        sha256_of(enc)
    } else if rem == 1 {
        sha384_of(enc)
    } else {
        sha512_of(enc)
    };
    (next, last)
}

/// Each round of the revision 6 hash (ISO 32000-2, Algorithm 2.B): with
/// `enc` the AES-128-CBC encryption, under key `k[0..16]` and IV
/// `k[16..32]`, of `password || k || extra` repeated 64 times, the next
/// `k` is SHA-256 of `enc` where the sum of its first 16 bytes is 0 modulo
/// 3, SHA-384 where it is 1 and SHA-512 where it is 2; the rounds stop
/// after the first round `n` from 63 on whose last encrypted byte is at
/// most `n - 32`, and the hash is the first 32 bytes of the last `k`.
pub proof fn lemma_2b_round(password: Seq<u8>, extra: Seq<u8>, k: Seq<u8>, round: nat)
    ensures
        ({
            let enc = aes128_cbc_encrypted(k.take(16), k.subrange(16, 32), repeat(password + k + extra, 64));
            let sum = byte_sum(enc.take(16));
            let last: int = if enc.len() > 0 {
                enc.last() as int
            } else {
                0
            };
            let stop = round >= 63 && last <= round - 32;
            &&& sum % 3 == 0 ==> rounds_2b(password, extra, k, round) == (if stop {
                sha256_of(enc)
            } else {
                rounds_2b(password, extra, sha256_of(enc), round + 1)
            })
            &&& sum % 3 == 1 ==> rounds_2b(password, extra, k, round) == (if stop {
                sha384_of(enc)
            } else {
                rounds_2b(password, extra, sha384_of(enc), round + 1)
            })
            &&& sum % 3 == 2 ==> rounds_2b(password, extra, k, round) == (if stop {
                sha512_of(enc)
            } else {
                rounds_2b(password, extra, sha512_of(enc), round + 1)
            })
        }),
        forall|salt: Seq<u8>|
            #[trigger] algorithm_2b_spec(password, salt, extra) == rounds_2b(password, extra, sha256_of(password + salt + extra), 0).take(32),
{
}

/// The revision 6 rounds from `round` on: at least 64 rounds, ending
/// after the first round `n` from 63 on whose last encrypted byte is at
/// most `n - 32`.
pub open spec fn rounds_2b(password: Seq<u8>, extra: Seq<u8>, k: Seq<u8>, round: nat) -> Seq<u8>
    decreases 288 - round,
{
    let step = round_2b(password, k, extra);
    if round >= 63 && step.1 <= round - 32 {
        step.0
    } else {
        rounds_2b(password, extra, step.0, round + 1)
    }
}

/// The revision 6 hash of a password with salt and extra data.
pub open spec fn algorithm_2b_spec(password: Seq<u8>, salt: Seq<u8>, extra: Seq<u8>) -> Seq<u8> {
    rounds_2b(password, extra, sha256_of(password + salt + extra), 0).take(32)
}

/// The hash of revision 5 (plain SHA-256) or 6 (the iterative hash).
pub open spec fn hash_for_revision_spec(password: Seq<u8>, salt: Seq<u8>, extra: Seq<u8>, revision: u8) -> Seq<u8> {
    if revision == 5 {
        hash_r5_spec(password, salt, extra)
    } else {
        algorithm_2b_spec(password, salt, extra)
    }
}

fn truncate_password(password: &[u8]) -> (r: Vec<u8>)
    ensures
        r@ == truncated_password(password@),
{
    let n = if password.len() < MAX_PASSWORD_LEN { password.len() } else { MAX_PASSWORD_LEN };
    let r = crate::content::lexer::copy_bytes(password, 0, n);
    assert(r@ =~= truncated_password(password@));
    r
}

/// The revision 5 hash: SHA-256 of password, salt and extra data.
pub fn hash_r5(password: &[u8], salt: &[u8], extra: &[u8]) -> (r: Vec<u8>)
    ensures
        r@ == hash_r5_spec(password@, salt@, extra@),
        r@.len() == 32,
{
    let mut input = crate::content::lexer::copy_bytes(password, 0, password.len());
    append_bytes(&mut input, salt);
    append_bytes(&mut input, extra);
    assert(input@ =~= password@ + salt@ + extra@);
    sha256_digest(input.as_slice())
}

proof fn lemma_repeat_len(b: Seq<u8>, n: nat)
    ensures
        repeat(b, n).len() == n * b.len(),
    decreases n,
{
    let l = b.len() as int;
    if n == 0 {
        assert(0 * l == 0) by (nonlinear_arith);
    } else {
        lemma_repeat_len(b, (n - 1) as nat);
        let m = (n - 1) as int;
        assert(m * l + l == (m + 1) * l) by (nonlinear_arith);
    }
}

proof fn lemma_aligned(m: nat)
    ensures
        (64 * m) % 16 == 0,
{
    assert((64 * m) % 16 == 0) by (nonlinear_arith);
}

proof fn lemma_byte_sum_bound(s: Seq<u8>)
    ensures
        byte_sum(s) <= 255 * s.len(),
    decreases s.len(),
{
    if s.len() > 0 {
        lemma_byte_sum_bound(s.drop_last());
    }
}

fn sum_first_16(enc: &Vec<u8>) -> (r: u32)
    requires
        enc@.len() >= 16,
    ensures
        r == byte_sum(enc@.take(16)),
{
    let mut total: u32 = 0;
    let mut i: usize = 0;
    while i < 16
        invariant
            i <= 16,
            enc@.len() >= 16,
            total == byte_sum(enc@.take(i as int)),
            total <= 255 * i,
        decreases 16 - i,
    {
        assert(enc@.take(i as int + 1).drop_last() =~= enc@.take(i as int));
        total = total + enc[i] as u32;
        i = i + 1;
    }
    total
}

/// The revision 6 hash (the iterative hash of ISO 32000-2, 7.6.4.3.4).
pub fn algorithm_2b(password: &[u8], salt: &[u8], extra: &[u8]) -> (r: Vec<u8>)
    ensures
        r@ == algorithm_2b_spec(password@, salt@, extra@),
        r@.len() == 32,
{
    let mut input = crate::content::lexer::copy_bytes(password, 0, password.len());
    append_bytes(&mut input, salt);
    append_bytes(&mut input, extra);
    assert(input@ =~= password@ + salt@ + extra@);
    let mut k = sha256_digest(input.as_slice());
    let ghost k0 = k@;
    let mut round: u32 = 0;
    let mut done = false;
    while !done
        invariant
            round <= 287,
            k@.len() >= 32,
            !done ==> rounds_2b(password@, extra@, k0, 0) == rounds_2b(password@, extra@, k@, round as nat),
            done ==> rounds_2b(password@, extra@, k0, 0) == k@,
        decreases 288 - round, if done { 0int } else { 1int },
    {
        let ghost kb = k@;
        let mut k1: Vec<u8> = Vec::new();
        let mut rep: usize = 0;
        while rep < 64
            invariant
                rep <= 64,
                k1@ == repeat(password@ + kb + extra@, rep as nat),
                k@ == kb,
            decreases 64 - rep,
        {
            let ghost before = k1@;
            append_bytes(&mut k1, password);
            append_bytes(&mut k1, k.as_slice());
            append_bytes(&mut k1, extra);
            assert(k1@ =~= before + (password@ + kb + extra@));
            rep = rep + 1;
        }
        proof {
            lemma_repeat_len(password@ + kb + extra@, 64);
            lemma_aligned((password@ + kb + extra@).len());
        }
        let key16 = copy_prefix(&k, 16);
        let iv16 = crate::content::lexer::copy_bytes(k.as_slice(), 16, 32);
        let enc = aes128_cbc_encrypt(key16.as_slice(), iv16.as_slice(), k1.as_slice());
        let rem = sum_first_16(&enc) % 3;
        let last: u8 = if enc.len() > 0 { enc[enc.len() - 1] } else { 0 };
        k = if rem == 0 {
            sha256_digest(enc.as_slice())
        } else if rem == 1 {
            sha384_digest(enc.as_slice())
        } else {
            sha512_digest(enc.as_slice())
        };
        assert((k@, last) == round_2b(password@, kb, extra@));
        if round >= 63 && last as u32 <= round - 32 {
            done = true;
        } else {
            round = round + 1;
        }
    }
    copy_prefix(&k, 32)
}

fn hash_for_revision(password: &[u8], salt: &[u8], extra: &[u8], revision: u8) -> (r: Vec<u8>)
    ensures
        r@ == hash_for_revision_spec(password@, salt@, extra@, revision),
        r@.len() == 32,
{
    if revision == 5 {
        hash_r5(password, salt, extra)
    } else {
        algorithm_2b(password, salt, extra)
    }
}

/// Whether a password matches the `/U` entry of revision 5 or 6: `/U`
/// holds at least 48 bytes, and its first 32 are the hash of the
/// truncated password with the validation salt (bytes 32 to 40).
pub open spec fn user_password_r5_r6_matches(password: Seq<u8>, u_value: Seq<u8>, revision: u8) -> bool {
    u_value.len() >= 48 && hash_for_revision_spec(
        truncated_password(password),
        u_value.subrange(32, 40),
        Seq::empty(),
        revision,
    ) == u_value.take(32)
}

/// Whether a password matches the `/O` entry of revision 5 or 6: as for
/// `/U`, with the whole `/U` entry hashed after the salt.
pub open spec fn owner_password_r5_r6_matches(
    password: Seq<u8>,
    o_value: Seq<u8>,
    u_value: Seq<u8>,
    revision: u8,
) -> bool {
    o_value.len() >= 48 && hash_for_revision_spec(
        truncated_password(password),
        o_value.subrange(32, 40),
        u_value,
        revision,
    ) == o_value.take(32)
}

/// Checks a user password of revision 5 or 6 against `/U`.
pub fn validate_user_password_r5_r6(password: &[u8], u_value: &[u8], revision: u8) -> (r: bool)
    ensures
        r == user_password_r5_r6_matches(password@, u_value@, revision),
{
    if u_value.len() < 48 {
        return false;
    }
    let pw = truncate_password(password);
    let salt = crate::content::lexer::copy_bytes(u_value, 32, 40);
    let empty: Vec<u8> = Vec::new();
    assert(empty@ =~= Seq::<u8>::empty());
    let computed = hash_for_revision(pw.as_slice(), salt.as_slice(), empty.as_slice(), revision);
    let expected = crate::content::lexer::copy_bytes(u_value, 0, 32);
    assert(expected@ =~= u_value@.take(32));
    bytes_eq(computed.as_slice(), expected.as_slice())
}

/// Checks an owner password of revision 5 or 6 against `/O`.
pub fn validate_owner_password_r5_r6(password: &[u8], o_value: &[u8], u_value: &[u8], revision: u8) -> (r: bool)
    ensures
        r == owner_password_r5_r6_matches(password@, o_value@, u_value@, revision),
{
    if o_value.len() < 48 {
        return false;
    }
    let pw = truncate_password(password);
    let salt = crate::content::lexer::copy_bytes(o_value, 32, 40);
    let computed = hash_for_revision(pw.as_slice(), salt.as_slice(), u_value, revision);
    let expected = crate::content::lexer::copy_bytes(o_value, 0, 32);
    assert(expected@ =~= o_value@.take(32));
    bytes_eq(computed.as_slice(), expected.as_slice())
}

fn encryption_error(msg: &str) -> (r: PdfError)
    ensures
        r matches PdfError::EncryptionError(m) && m@ == msg@,
{
    let mut out: Vec<char> = Vec::new();
    append_str(&mut out, msg);
    PdfError::EncryptionError(string_from_chars(out.as_slice()))
}

/// `r` is the outcome of AES-256-CBC decryption without padding: an error
/// for data that is not block-aligned or for a key that is not 32 bytes
/// or an IV that is not 16 (its message begins `AES-256 init: `), else
/// the plaintext.
pub open spec fn aes256_no_pad_result(key: Seq<u8>, iv: Seq<u8>, data: Seq<u8>, r: PdfResult<Vec<u8>>) -> bool {
    if data.len() % 16 != 0 {
        r matches Err(PdfError::EncryptionError(m)) && m@ == "AES-256 no-pad: data not block-aligned"@
    } else if key.len() == 32 && iv.len() == 16 {
        r matches Ok(v) && v@ == aes256_cbc_decrypted(key, iv, data) && v@.len() == data.len()
    } else {
        r matches Err(PdfError::EncryptionError(m)) && m@.take(14) == "AES-256 init: "@
    }
}

/// AES-256-CBC decryption without padding (for `/UE` and `/OE`).
pub fn decrypt_aes256_cbc_no_pad(key: &[u8], iv: &[u8], data: &[u8]) -> (r: PdfResult<Vec<u8>>)
    ensures
        aes256_no_pad_result(key@, iv@, data@, r),
{
    if data.len() % 16 != 0 {
        return Err(encryption_error("AES-256 no-pad: data not block-aligned"));
    }
    match aes256_cbc_decrypt(key, iv, data) {
        Ok(v) => Ok(v),
        Err(text) => {
            let mut out: Vec<char> = Vec::new();
            append_str(&mut out, "AES-256 init: ");
            let ghost head = out@;
            append_str(&mut out, text.as_str());
            proof {
                reveal_strlit("AES-256 init: ");
                assert(out@.take(14) =~= head);
            }
            Err(PdfError::EncryptionError(string_from_chars(out.as_slice())))
        },
    }
}

/// The file key of revision 5 or 6 from the user password: the hash of
/// the password with the key salt (bytes 40 to 48 of `/U`) decrypts the
/// first 32 bytes of `/UE`.
pub open spec fn file_key_user_spec(password: Seq<u8>, u_value: Seq<u8>, ue_value: Seq<u8>, revision: u8) -> Seq<u8> {
    aes256_cbc_decrypted(
        hash_for_revision_spec(truncated_password(password), u_value.subrange(40, 48), Seq::empty(), revision),
        Seq::new(16, |i: int| 0u8),
        ue_value.take(32),
    )
}

/// The file key of revision 5 or 6 from the owner password, through `/O`,
/// `/OE` and the whole `/U`.
pub open spec fn file_key_owner_spec(
    password: Seq<u8>,
    o_value: Seq<u8>,
    oe_value: Seq<u8>,
    u_value: Seq<u8>,
    revision: u8,
) -> Seq<u8> {
    aes256_cbc_decrypted(
        hash_for_revision_spec(truncated_password(password), o_value.subrange(40, 48), u_value, revision),
        Seq::new(16, |i: int| 0u8),
        oe_value.take(32),
    )
}

fn zero_iv() -> (r: Vec<u8>)
    ensures
        r@ == Seq::new(16, |i: int| 0u8),
{
    let v: Vec<u8> = vec![0u8, 0, 0, 0, 0, 0, 0, 0, 0, 0, 0, 0, 0, 0, 0, 0];
    assert(v@ =~= Seq::new(16, |i: int| 0u8));
    v
}

/// Derives the 32-byte file key of revision 5 or 6 from the user password.
pub fn compute_file_key_user(password: &[u8], u_value: &[u8], ue_value: &[u8], revision: u8) -> (r: PdfResult<Vec<u8>>)
    ensures
        if u_value@.len() < 48 || ue_value@.len() < 32 {
            r matches Err(PdfError::EncryptionError(m)) && m@ == "R5/R6 /U or /UE too short"@
        } else {
            r matches Ok(v) && v@ == file_key_user_spec(password@, u_value@, ue_value@, revision) && v@.len() == 32
        },
{
    if u_value.len() < 48 || ue_value.len() < 32 {
        return Err(encryption_error("R5/R6 /U or /UE too short"));
    }
    let pw = truncate_password(password);
    let salt = crate::content::lexer::copy_bytes(u_value, 40, 48);
    let empty: Vec<u8> = Vec::new();
    assert(empty@ =~= Seq::<u8>::empty());
    let intermediate = hash_for_revision(pw.as_slice(), salt.as_slice(), empty.as_slice(), revision);
    let iv = zero_iv();
    let body = crate::content::lexer::copy_bytes(ue_value, 0, 32);
    assert(body@ =~= ue_value@.take(32));
    decrypt_aes256_cbc_no_pad(intermediate.as_slice(), iv.as_slice(), body.as_slice())
}

/// Derives the 32-byte file key of revision 5 or 6 from the owner password.
pub fn compute_file_key_owner(
    password: &[u8],
    o_value: &[u8],
    oe_value: &[u8],
    u_value: &[u8],
    revision: u8,
) -> (r: PdfResult<Vec<u8>>)
    ensures
        if o_value@.len() < 48 || oe_value@.len() < 32 {
            r matches Err(PdfError::EncryptionError(m)) && m@ == "R5/R6 /O or /OE too short"@
        } else {
            r matches Ok(v) && v@ == file_key_owner_spec(password@, o_value@, oe_value@, u_value@, revision) && v@.len() == 32
        },
{
    if o_value.len() < 48 || oe_value.len() < 32 {
        return Err(encryption_error("R5/R6 /O or /OE too short"));
    }
    let pw = truncate_password(password);
    let salt = crate::content::lexer::copy_bytes(o_value, 40, 48);
    let intermediate = hash_for_revision(pw.as_slice(), salt.as_slice(), u_value, revision);
    let iv = zero_iv();
    let body = crate::content::lexer::copy_bytes(oe_value, 0, 32);
    assert(body@ =~= oe_value@.take(32));
    decrypt_aes256_cbc_no_pad(intermediate.as_slice(), iv.as_slice(), body.as_slice())
}

} // verus!

//! The Standard security handler: reading the encryption dictionary,
//! checking the password and decrypting strings and streams.
use vstd::prelude::*;
use aes::cipher::{BlockDecrypt, BlockDecryptMut, KeyInit, KeyIvInit};
use crate::encryption::key::{
    aes256_no_pad_result, compute_file_key_owner, compute_file_key_user, file_key_owner_spec,
    file_key_user_spec, object_key, object_key_spec, owner_password_r5_r6_matches, r2_r4_key,
    user_password_matches, user_password_r5_r6_matches, validate_owner_password_r5_r6,
    validate_user_password_r5_r6, EncryptionKey,
};
use crate::encryption::rc4::{rc4, rc4_spec};
use crate::error::{append_str, PdfError, PdfResult};
use crate::objects::{DictExt, ObjectId};
use crate::unicode::{decimal, push_decimal, push_signed_decimal, signed_decimal, str_eq, string_from_chars};

verus! {

/// The encryption algorithm of a security handler.
#[derive(Debug, Clone, Copy, PartialEq, Eq, Structural)]
pub enum CryptAlgorithm {
    /// RC4 (revisions 2 and 3).
    Rc4,
    /// AES-128 in CBC mode (revision 4, `/AESV2`).
    AesV2,
    /// AES-256 in CBC mode (revisions 5 and 6, `/AESV3`).
    AesV3,
}

/// The document permissions of the `/P` entry.
#[derive(Debug, Clone, Copy)]
pub struct Permissions {
    /// Raw permission flags.
    pub flags: i32,
}

impl Permissions {
    /// Whether printing is allowed (bit 3, value 4).
    pub fn can_print(&self) -> (r: bool)
        ensures
            r == (self.flags & 4 != 0),
    {
        self.flags & 4 != 0
    }

    /// Whether modifying is allowed (bit 4, value 8).
    pub fn can_modify(&self) -> (r: bool)
        ensures
            r == (self.flags & 8 != 0),
    {
        self.flags & 8 != 0
    }

    /// Whether extracting text and graphics is allowed (bit 5, value 16).
    pub fn can_extract(&self) -> (r: bool)
        ensures
            r == (self.flags & 16 != 0),
    {
        self.flags & 16 != 0
    }

    /// Whether adding annotations is allowed (bit 6, value 32).
    pub fn can_annotate(&self) -> (r: bool)
        ensures
            r == (self.flags & 32 != 0),
    {
        self.flags & 32 != 0
    }
}

/// A negative `/P` whose four permission bits are set grants them all:
/// in particular the usual `-4` (every bit but the two lowest).
pub proof fn lemma_minus_four_grants_all()
    ensures
        (-4i32) & 4 != 0,
        (-4i32) & 8 != 0,
        (-4i32) & 16 != 0,
        (-4i32) & 32 != 0,
{
    assert((-4i32) & 4 != 0) by (bit_vector);
    assert((-4i32) & 8 != 0) by (bit_vector);
    assert((-4i32) & 16 != 0) by (bit_vector);
    assert((-4i32) & 32 != 0) by (bit_vector);
}

/// What the security handler reads from an `/Encrypt` dictionary: the
/// integer entries (`None` where absent or not an integer), the string
/// entries (`None` where absent or not a string), `/EncryptMetadata`
/// (`None` where absent or not a boolean), and the `/CFM` name of the
/// `/StdCF` crypt filter of `/CF`.
#[derive(Debug, Clone)]
pub struct EncryptDict {
    /// `/R`, the revision.
    pub r: Option<i64>,
    /// `/V`, the algorithm version.
    pub v: Option<i64>,
    /// `/Length`, the key length in bits.
    pub length: Option<i64>,
    /// `/P`, the permission flags.
    pub p: Option<i64>,
    /// `/O`.
    pub o: Option<Vec<u8>>,
    /// `/U`.
    pub u: Option<Vec<u8>>,
    /// `/UE`.
    pub ue: Option<Vec<u8>>,
    /// `/OE`.
    pub oe: Option<Vec<u8>>,
    /// `/Perms`.
    pub perms: Option<Vec<u8>>,
    /// `/EncryptMetadata`.
    pub encrypt_metadata: Option<bool>,
    /// `/CF /StdCF /CFM`.
    pub std_cf_cfm: Option<String>,
}

/// The encryption handler of a document.
#[derive(Debug, Clone)]
pub struct EncryptionHandler {
    key: EncryptionKey,
    revision: u8,
    algorithm: CryptAlgorithm,
    encrypt_metadata: bool,
    /// Document permissions.
    pub permissions: Permissions,
}

impl EncryptionHandler {
    /// The file key.
    pub closed spec fn key_spec(&self) -> Seq<u8> {
        self.key.key@
    }

    /// The security handler revision.
    pub closed spec fn revision_spec(&self) -> u8 {
        self.revision
    }

    /// The encryption algorithm.
    pub closed spec fn algorithm_spec(&self) -> CryptAlgorithm {
        self.algorithm
    }

    /// Whether metadata is encrypted.
    pub closed spec fn encrypt_metadata_spec(&self) -> bool {
        self.encrypt_metadata
    }

    /// The permission flags.
    pub closed spec fn flags_spec(&self) -> i32 {
        self.permissions.flags
    }

    /// Whether this handler has the given file key, revision, algorithm,
    /// metadata flag and permission flags.
    pub open spec fn holds(&self, key: Seq<u8>, revision: u8, algorithm: CryptAlgorithm, em: bool, flags: i32) -> bool {
        &&& self.key_spec() == key
        &&& self.revision_spec() == revision
        &&& self.algorithm_spec() == algorithm
        &&& self.encrypt_metadata_spec() == em
        &&& self.flags_spec() == flags
    }
}

// ---------------------------------------------------------------------------
// The outside block cipher
// ---------------------------------------------------------------------------

/// AES-256 decryption of one 16-byte block.
pub uninterp spec fn aes256_block_decrypted(key: Seq<u8>, block: Seq<u8>) -> Seq<u8>;

/// AES-128-CBC decryption with PKCS#7 padding removed, `None` where the
/// padding is malformed.
pub uninterp spec fn aes128_cbc_pkcs7_decrypted(key: Seq<u8>, iv: Seq<u8>, data: Seq<u8>) -> Option<Seq<u8>>;

/// AES-256-CBC decryption with PKCS#7 padding removed, `None` where the
/// padding is malformed.
pub uninterp spec fn aes256_cbc_pkcs7_decrypted(key: Seq<u8>, iv: Seq<u8>, data: Seq<u8>) -> Option<Seq<u8>>;

/// AES-CBC decryption with PKCS#7 padding removed; `aes256` selects
/// AES-256 over AES-128.
pub open spec fn aes_cbc_pkcs7_decrypted(aes256: bool, key: Seq<u8>, iv: Seq<u8>, data: Seq<u8>) -> Option<Seq<u8>> {
    if aes256 {
        aes256_cbc_pkcs7_decrypted(key, iv, data)
    } else {
        aes128_cbc_pkcs7_decrypted(key, iv, data)
    }
}

/// `aes::Aes256::new` on the key then `decrypt_block`: a function of key
/// and block, 16 bytes long. `GenericArray::from_slice` panics on a key
/// that is not 32 bytes, which the requirement leaves out.
#[verifier::external_body]
fn aes256_decrypt_block(key: &[u8], block: &[u8]) -> (r: Vec<u8>)
    requires
        key@.len() == 32,
        block@.len() == 16,
    ensures
        r@ == aes256_block_decrypted(key@, block@),
        r@.len() == 16,
{
    let cipher = aes::Aes256::new(aes::cipher::generic_array::GenericArray::from_slice(key));
    let mut b = aes::cipher::generic_array::GenericArray::clone_from_slice(block);
    cipher.decrypt_block(&mut b);
    b.to_vec()
}

/// Why an AES-CBC decryption failed: at the set-up of key and IV, or at
/// the removal of the padding; each with the outside error's text.
pub enum CbcFailure {
    /// `new_from_slices` refused the key or IV.
    Init(String),
    /// `decrypt_padded_mut` refused the padding.
    Decrypt(String),
}

/// `cbc::Decryptor::<aes::Aes128>::new_from_slices` then
/// `decrypt_padded_mut::<Pkcs7>`. The set-up fails exactly where the key
/// or the IV is not 16 bytes (the source checks only those lengths); on
/// block-aligned data the rest fails exactly where the padding is
/// malformed; the plaintext is a function of key, IV and data.
#[verifier::external_body]
fn aes128_cbc_pkcs7_decrypt(key: &[u8], iv: &[u8], data: &[u8]) -> (r: Result<Vec<u8>, CbcFailure>)
    requires
        data@.len() % 16 == 0,
    ensures
        (r is Err && r->Err_0 is Init) <==> (key@.len() != 16 || iv@.len() != 16),
        r matches Ok(v) ==> aes128_cbc_pkcs7_decrypted(key@, iv@, data@) == Some(v@),
        r matches Err(CbcFailure::Decrypt(_)) ==> aes128_cbc_pkcs7_decrypted(key@, iv@, data@) is None,
{
    let mut buf = data.to_vec();
    match cbc::Decryptor::<aes::Aes128>::new_from_slices(key, iv) {
        Ok(d) => match d.decrypt_padded_mut::<aes::cipher::block_padding::Pkcs7>(&mut buf) {
            Ok(p) => Ok(p.to_vec()),
            Err(e) => Err(CbcFailure::Decrypt(format!("{}", e))),
        },
        Err(e) => Err(CbcFailure::Init(format!("{}", e))),
    }
}

/// The same as [`aes128_cbc_pkcs7_decrypt`] with `cbc::Decryptor::<aes::Aes256>`,
/// whose key is 32 bytes.
#[verifier::external_body]
fn aes256_cbc_pkcs7_decrypt(key: &[u8], iv: &[u8], data: &[u8]) -> (r: Result<Vec<u8>, CbcFailure>)
    requires
        data@.len() % 16 == 0,
    ensures
        (r is Err && r->Err_0 is Init) <==> (key@.len() != 32 || iv@.len() != 16),
        r matches Ok(v) ==> aes256_cbc_pkcs7_decrypted(key@, iv@, data@) == Some(v@),
        r matches Err(CbcFailure::Decrypt(_)) ==> aes256_cbc_pkcs7_decrypted(key@, iv@, data@) is None,
{
    let mut buf = data.to_vec();
    match cbc::Decryptor::<aes::Aes256>::new_from_slices(key, iv) {
        Ok(d) => match d.decrypt_padded_mut::<aes::cipher::block_padding::Pkcs7>(&mut buf) {
            Ok(p) => Ok(p.to_vec()),
            Err(e) => Err(CbcFailure::Decrypt(format!("{}", e))),
        },
        Err(e) => Err(CbcFailure::Init(format!("{}", e))),
    }
}

fn encryption_error(msg: &str) -> (r: PdfError)
    ensures
        r matches PdfError::EncryptionError(m) && m@ == msg@,
{
    let mut out: Vec<char> = Vec::new();
    append_str(&mut out, msg);
    PdfError::EncryptionError(string_from_chars(out.as_slice()))
}

fn prefixed_error(prefix: &str, text: &String) -> (r: PdfError)
    ensures
        r matches PdfError::EncryptionError(m) && m@ == prefix@ + text@,
{
    let mut out: Vec<char> = Vec::new();
    append_str(&mut out, prefix);
    append_str(&mut out, text.as_str());
    PdfError::EncryptionError(string_from_chars(out.as_slice()))
}

/// The key length in bytes of an AES variant.
pub open spec fn aes_key_len(aes256: bool) -> int {
    if aes256 {
        32
    } else {
        16
    }
}

/// `r` is the outcome of AES-CBC decryption of `data`, whose first 16
/// bytes are the IV: errors for data shorter than the IV, for an empty
/// or unaligned ciphertext, for a key of the wrong length (message
/// beginning `AES init: `) and for malformed padding (message beginning
/// `AES decrypt: `); else the plaintext.
pub open spec fn aes_cbc_result(aes256: bool, key: Seq<u8>, data: Seq<u8>, r: PdfResult<Vec<u8>>) -> bool {
    if data.len() < 16 {
        r matches Err(PdfError::EncryptionError(m)) && m@ == "AES data too short for IV"@
    } else if data.len() == 16 || (data.len() - 16) % 16 != 0 {
        r matches Err(PdfError::EncryptionError(m)) && m@ == "AES ciphertext not block-aligned"@
    } else if key.len() != aes_key_len(aes256) {
        r matches Err(PdfError::EncryptionError(m)) && m@.take(10) == "AES init: "@
    } else {
        match aes_cbc_pkcs7_decrypted(aes256, key, data.take(16), data.skip(16)) {
            Some(p) => r matches Ok(v) && v@ == p,
            None => r matches Err(PdfError::EncryptionError(m)) && m@.take(13) == "AES decrypt: "@,
        }
    }
}

/// Decrypts AES-CBC data whose first 16 bytes are the IV; `aes256`
/// selects AES-256 over AES-128.
pub fn decrypt_aes_cbc(aes256: bool, key: &[u8], data: &[u8]) -> (r: PdfResult<Vec<u8>>)
    ensures
        aes_cbc_result(aes256, key@, data@, r),
{
    if data.len() < 16 {
        return Err(encryption_error("AES data too short for IV"));
    }
    let iv = crate::content::lexer::copy_bytes(data, 0, 16);
    let ciphertext = crate::content::lexer::copy_bytes(data, 16, data.len());
    assert(iv@ =~= data@.take(16));
    assert(ciphertext@ =~= data@.skip(16));
    if ciphertext.len() == 0 || ciphertext.len() % 16 != 0 {
        return Err(encryption_error("AES ciphertext not block-aligned"));
    }
    proof {
        reveal_strlit("AES init: ");
        reveal_strlit("AES decrypt: ");
    }
    let out = if aes256 {
        aes256_cbc_pkcs7_decrypt(key, iv.as_slice(), ciphertext.as_slice())
    } else {
        aes128_cbc_pkcs7_decrypt(key, iv.as_slice(), ciphertext.as_slice())
    };
    match out {
        Ok(v) => Ok(v),
        Err(CbcFailure::Init(text)) => {
            let e = prefixed_error("AES init: ", &text);
            proof {
                assert(("AES init: "@ + text@).take(10) =~= "AES init: "@);
            }
            Err(e)
        },
        Err(CbcFailure::Decrypt(text)) => {
            let e = prefixed_error("AES decrypt: ", &text);
            proof {
                assert(("AES decrypt: "@ + text@).take(13) =~= "AES decrypt: "@);
            }
            Err(e)
        },
    }
}

// ---------------------------------------------------------------------------
// /Perms
// ---------------------------------------------------------------------------

/// The little-endian signed integer of the first four bytes.
pub open spec fn le_i32(b: Seq<u8>) -> i32 {
    (b[0] + 256 * b[1] + 65536 * b[2] + 16777216 * b[3]) as u32 as i32
}

/// The check of `/Perms` under the file key: 16 bytes at least; its
/// first block decrypted (AES-256) holds `adb` at bytes 9 to 12, `T` or
/// `F` at byte 8 and the `/P` value in its first four bytes; else the
/// error message.
pub open spec fn perms_check(file_key: Seq<u8>, perms: Seq<u8>, expected_p: i32) -> Result<(), Seq<char>> {
    if perms.len() < 16 {
        Err("/Perms too short (need 16 bytes)"@)
    } else {
        let b = aes256_block_decrypted(file_key, perms.take(16));
        if b.subrange(9, 12) != seq![0x61u8, 0x64, 0x62] {
            Err("/Perms validation failed: marker bytes incorrect"@)
        } else if b[8] != 0x54 && b[8] != 0x46 {
            Err("/Perms validation failed: metadata flag not T or F"@)
        } else if le_i32(b) != expected_p {
            Err("/Perms P value mismatch: expected "@ + signed_decimal(expected_p as int) + ", got "@
                + signed_decimal(le_i32(b) as int))
        } else {
            Ok(())
        }
    }
}

/// `r` reports the outcome of a check: `Ok` as it is, an error message
/// as an encryption error.
pub open spec fn reports<T>(check: Result<(), Seq<char>>, r: PdfResult<T>) -> bool {
    match check {
        Ok(_) => r is Ok,
        Err(m) => r matches Err(PdfError::EncryptionError(e)) && e@ == m,
    }
}

/// Checks the `/Perms` entry of revisions 5 and 6 against the file key
/// and the `/P` value.
pub fn validate_perms(file_key: &[u8], perms_value: &[u8], expected_p: i32) -> (r: PdfResult<()>)
    requires
        file_key@.len() == 32,
    ensures
        reports(perms_check(file_key@, perms_value@, expected_p), r),
{
    if perms_value.len() < 16 {
        return Err(encryption_error("/Perms too short (need 16 bytes)"));
    }
    let first = crate::content::lexer::copy_bytes(perms_value, 0, 16);
    assert(first@ =~= perms_value@.take(16));
    let block = aes256_decrypt_block(file_key, first.as_slice());
    if !(block[9] == 0x61 && block[10] == 0x64 && block[11] == 0x62) {
        proof {
            if block@.subrange(9, 12) == seq![0x61u8, 0x64, 0x62] {
                assert(block@.subrange(9, 12)[0] == block@[9]);
                assert(block@.subrange(9, 12)[1] == block@[10]);
                assert(block@.subrange(9, 12)[2] == block@[11]);
            }
        }
        return Err(encryption_error("/Perms validation failed: marker bytes incorrect"));
    }
    assert(block@.subrange(9, 12) =~= seq![0x61u8, 0x64, 0x62]);
    if block[8] != 0x54 && block[8] != 0x46 {
        return Err(encryption_error("/Perms validation failed: metadata flag not T or F"));
    }
    let v: u32 = block[0] as u32 + 256 * (block[1] as u32) + 65536 * (block[2] as u32) + 16777216 * (block[3] as u32);
    let perms_p = v as i32;
    if perms_p != expected_p {
        let mut out: Vec<char> = Vec::new();
        append_str(&mut out, "/Perms P value mismatch: expected ");
        push_signed_decimal(&mut out, expected_p as i64);
        append_str(&mut out, ", got ");
        push_signed_decimal(&mut out, perms_p as i64);
        return Err(PdfError::EncryptionError(string_from_chars(out.as_slice())));
    }
    Ok(())
}

// ---------------------------------------------------------------------------
// Decryption
// ---------------------------------------------------------------------------

/// AES-CBC decryption of IV-prefixed data, or the data unchanged where it
/// fails.
pub open spec fn aes_or_keep(aes256: bool, key: Seq<u8>, data: Seq<u8>) -> Seq<u8> {
    if data.len() > 16 && (data.len() - 16) % 16 == 0 && key.len() == aes_key_len(aes256) {
        match aes_cbc_pkcs7_decrypted(aes256, key, data.take(16), data.skip(16)) {
            Some(p) => p,
            None => data,
        }
    } else {
        data
    }
}

/// A string or stream of object `id` decrypted: RC4 under the object's
/// key; AES-128 under the object's AES key; AES-256 under the file key.
pub open spec fn decrypt_spec(algorithm: CryptAlgorithm, key: Seq<u8>, id: ObjectId, data: Seq<u8>) -> Seq<u8> {
    match algorithm {
        CryptAlgorithm::Rc4 => rc4_spec(object_key_spec(key, id.0, id.1, false), data),
        CryptAlgorithm::AesV2 => aes_or_keep(false, object_key_spec(key, id.0, id.1, true), data),
        CryptAlgorithm::AesV3 => aes_or_keep(true, key, data),
    }
}

fn decrypt_or_keep(aes256: bool, key: &[u8], data: &[u8]) -> (r: Vec<u8>)
    ensures
        r@ == aes_or_keep(aes256, key@, data@),
{
    match decrypt_aes_cbc(aes256, key, data) {
        Ok(v) => v,
        Err(_) => {
            let v = crate::content::lexer::copy_bytes(data, 0, data.len());
            assert(v@ =~= data@);
            v
        },
    }
}

/// An object after decrypting, to `depth` levels of nesting, every
/// string (which becomes a literal string) and every stream's data with
/// `f`; array elements and dictionary values are one level down, and a
/// stream's dictionary is left as it is.
pub open spec fn decrypted_view(
    o: crate::objects::object::ObjView,
    depth: nat,
    f: spec_fn(Seq<u8>) -> Seq<u8>,
) -> crate::objects::object::ObjView
    decreases depth,
{
    if depth == 0 {
        o
    } else {
        match o {
            crate::objects::object::ObjView::String(b, _) => crate::objects::object::ObjView::String(
                f(b),
                crate::objects::StringFormat::Literal,
            ),
            crate::objects::object::ObjView::Stream(es, data) => crate::objects::object::ObjView::Stream(
                es,
                f(data),
            ),
            crate::objects::object::ObjView::Array(items) => crate::objects::object::ObjView::Array(
                Seq::new(items.len(), |i: int| decrypted_view(items[i], (depth - 1) as nat, f)),
            ),
            crate::objects::object::ObjView::Dictionary(es) => crate::objects::object::ObjView::Dictionary(
                Seq::new(es.len(), |i: int| (es[i].0, decrypted_view(es[i].1, (depth - 1) as nat, f))),
            ),
            _ => o,
        }
    }
}

/// The depth to which `decrypt_object` descends.
pub const MAX_DECRYPT_DEPTH: usize = 64;

impl EncryptionHandler {
    /// Decrypts a string of the given object.
    pub fn decrypt_string(&self, obj_id: ObjectId, data: &[u8]) -> (r: Vec<u8>)
        ensures
            r@ == decrypt_spec(self.algorithm_spec(), self.key_spec(), obj_id, data@),
    {
        match self.algorithm {
            CryptAlgorithm::Rc4 => {
                let key = object_key(self.key.key.as_slice(), obj_id.0, obj_id.1, false);
                rc4(key.as_slice(), data)
            },
            CryptAlgorithm::AesV2 => {
                let key = object_key(self.key.key.as_slice(), obj_id.0, obj_id.1, true);
                decrypt_or_keep(false, key.as_slice(), data)
            },
            CryptAlgorithm::AesV3 => decrypt_or_keep(true, self.key.key.as_slice(), data),
        }
    }

    /// The decryption of data of object `obj_id`.
    pub open spec fn decrypt_fn(&self, obj_id: ObjectId) -> spec_fn(Seq<u8>) -> Seq<u8> {
        |b: Seq<u8>| decrypt_spec(self.algorithm_spec(), self.key_spec(), obj_id, b)
    }

    /// Decrypts every string and every stream's data in an object tree, to
    /// a nesting depth of 64; strings become literal strings.
    pub fn decrypt_object(&self, obj_id: ObjectId, obj: &mut crate::objects::Object)
        ensures
            final(obj)@ == decrypted_view(old(obj)@, MAX_DECRYPT_DEPTH as nat, self.decrypt_fn(obj_id)),
    {
        self.decrypt_object_inner(obj_id, obj, MAX_DECRYPT_DEPTH);
    }

    fn decrypt_object_inner(&self, obj_id: ObjectId, obj: &mut crate::objects::Object, depth: usize)
        ensures
            final(obj)@ == decrypted_view(old(obj)@, depth as nat, self.decrypt_fn(obj_id)),
        decreases depth,
    {
        if depth == 0 {
            return;
        }
        let ghost f = self.decrypt_fn(obj_id);
        let mut o = crate::objects::Object::Null;
        std::mem::swap(&mut o, obj);
        let ghost o0 = o@;
        let r = match o {
            crate::objects::Object::String(s) => {
                let d = self.decrypt_string(obj_id, s.bytes.as_slice());
                crate::objects::Object::String(
                    crate::objects::PdfString { bytes: d, format: crate::objects::StringFormat::Literal },
                )
            },
            crate::objects::Object::Stream(st) => {
                let d = self.decrypt_stream(obj_id, st.data.as_slice());
                crate::objects::Object::Stream(crate::objects::PdfStream { dict: st.dict, data: d })
            },
            crate::objects::Object::Array(mut arr) => {
                let ghost items0 = crate::objects::object::objects_view(arr@);
                proof {
                    crate::objects::object::lemma_objects_view(arr@);
                }
                let mut i: usize = 0;
                while i < arr.len()
                    invariant
                        i <= arr@.len(),
                        items0.len() == arr@.len(),
                        f == self.decrypt_fn(obj_id),
                        depth > 0,
                        forall|j: int|
                            0 <= j < i ==> #[trigger] crate::objects::object::object_view(arr@[j])
                                == decrypted_view(items0[j], (depth - 1) as nat, f),
                        forall|j: int|
                            i <= j < arr@.len() ==> #[trigger] crate::objects::object::object_view(arr@[j])
                                == items0[j],
                    decreases arr@.len() - i,
                {
                    let mut tmp = crate::objects::Object::Null;
                    arr.set_and_swap(i, &mut tmp);
                    self.decrypt_object_inner(obj_id, &mut tmp, depth - 1);
                    arr.set_and_swap(i, &mut tmp);
                    i = i + 1;
                }
                proof {
                    crate::objects::object::lemma_objects_view(arr@);
                    assert(crate::objects::object::objects_view(arr@) =~= decrypted_view(
                        o0,
                        depth as nat,
                        f,
                    )->Array_0);
                }
                crate::objects::Object::Array(arr)
            },
            crate::objects::Object::Dictionary(mut dict) => {
                let ghost es0 = dict@;
                let n = dict.len();
                let mut i: usize = 0;
                while i < n
                    invariant
                        i <= n,
                        n == dict@.len(),
                        es0.len() == n,
                        f == self.decrypt_fn(obj_id),
                        depth > 0,
                        forall|j: int|
                            0 <= j < i ==> #[trigger] dict@[j] == (
                                es0[j].0,
                                decrypted_view(es0[j].1, (depth - 1) as nat, f),
                            ),
                        forall|j: int| i <= j < n ==> #[trigger] dict@[j] == es0[j],
                    decreases n - i,
                {
                    let mut tmp = crate::objects::Object::Null;
                    dict.swap_value(i, &mut tmp);
                    self.decrypt_object_inner(obj_id, &mut tmp, depth - 1);
                    dict.swap_value(i, &mut tmp);
                    i = i + 1;
                }
                proof {
                    assert(dict@ =~= decrypted_view(o0, depth as nat, f)->Dictionary_0);
                }
                crate::objects::Object::Dictionary(dict)
            },
            other => other,
        };
        *obj = r;
    }

    /// Decrypts stream data of the given object, as strings are.
    pub fn decrypt_stream(&self, obj_id: ObjectId, data: &[u8]) -> (r: Vec<u8>)
        ensures
            r@ == decrypt_spec(self.algorithm_spec(), self.key_spec(), obj_id, data@),
    {
        self.decrypt_string(obj_id, data)
    }

    /// Whether this handler encrypts metadata.
    pub fn encrypts_metadata(&self) -> (r: bool)
        ensures
            r == self.encrypt_metadata_spec(),
    {
        self.encrypt_metadata
    }

    /// The security handler revision.
    pub fn revision(&self) -> (r: u8)
        ensures
            r == self.revision_spec(),
    {
        self.revision
    }

    /// The encryption algorithm.
    pub fn algorithm(&self) -> (r: CryptAlgorithm)
        ensures
            r == self.algorithm_spec(),
    {
        self.algorithm
    }
}

// ---------------------------------------------------------------------------
// Reading the encryption dictionary
// ---------------------------------------------------------------------------

/// The value of an optional integer, or a default.
pub open spec fn int_or(v: Option<i64>, d: i64) -> i64 {
    match v {
        Some(x) => x,
        None => d,
    }
}

/// The algorithm of version `v`: RC4 for 1 and 2; for 4, AES-128 where
/// the standard crypt filter's method is `AESV2`, else RC4; AES-256 for
/// 5; none for other versions.
pub open spec fn algorithm_for(v: u8, cfm: Option<String>) -> Option<CryptAlgorithm> {
    if v == 1 || v == 2 {
        Some(CryptAlgorithm::Rc4)
    } else if v == 4 {
        if cfm matches Some(n) && n@ == "AESV2"@ {
            Some(CryptAlgorithm::AesV2)
        } else {
            Some(CryptAlgorithm::Rc4)
        }
    } else if v == 5 {
        Some(CryptAlgorithm::AesV3)
    } else {
        None
    }
}

/// `r` is the encryption error with message `m`.
pub open spec fn enc_error<T>(r: PdfResult<T>, m: Seq<char>) -> bool {
    r matches Err(PdfError::EncryptionError(e)) && e@ == m
}

/// `r` is the handler with file key `fk` once `/Perms` checks out, else
/// the check's error.
pub open spec fn after_perms(
    r: PdfResult<EncryptionHandler>,
    fk: Seq<u8>,
    perms: Seq<u8>,
    revision: u8,
    algorithm: CryptAlgorithm,
    em: bool,
    p: i32,
) -> bool {
    match perms_check(fk, perms, p) {
        Err(m) => enc_error(r, m),
        Ok(_) => r matches Ok(h) && h.holds(fk, revision, algorithm, em, p),
    }
}

/// The outcome for revisions 5 and 6: the user password is tried first,
/// then the owner password; the file key they give must pass `/Perms`.
pub open spec fn r5_r6_outcome(
    r: PdfResult<EncryptionHandler>,
    password: Seq<u8>,
    o: Seq<u8>,
    u: Seq<u8>,
    ue: Seq<u8>,
    oe: Seq<u8>,
    perms: Seq<u8>,
    revision: u8,
    algorithm: CryptAlgorithm,
    em: bool,
    p: i32,
) -> bool {
    if user_password_r5_r6_matches(password, u, revision) {
        if ue.len() < 32 {
            enc_error(r, "R5/R6 /U or /UE too short"@)
        } else {
            after_perms(r, file_key_user_spec(password, u, ue, revision), perms, revision, algorithm, em, p)
        }
    } else if owner_password_r5_r6_matches(password, o, u, revision) {
        if oe.len() < 32 {
            enc_error(r, "R5/R6 /O or /OE too short"@)
        } else {
            after_perms(r, file_key_owner_spec(password, o, oe, u, revision), perms, revision, algorithm, em, p)
        }
    } else {
        r matches Err(PdfError::InvalidPassword)
    }
}

/// The outcome of reading the dictionary `d` with first file identifier
/// `id` and password `pw`: `/R`, `/P`, `/O` and `/U` must be there, `/V`
/// must name an algorithm; revisions 5 and 6 also need `/UE`, `/OE` and
/// `/Perms`; the password must match.
pub open spec fn from_dict_outcome(d: EncryptDict, id: Seq<u8>, pw: Seq<u8>, r: PdfResult<EncryptionHandler>) -> bool {
    match d.r {
        None => enc_error(r, "Encrypt dict missing /"@ + "R"@),
        Some(rv) => {
            let rev = rv as u8;
            let v = int_or(d.v, 0) as u8;
            let key_length = int_or(d.length, 40) as usize;
            match d.p {
                None => enc_error(r, "Encrypt dict missing /"@ + "P"@),
                Some(pv) => {
                    let p = pv as i32;
                    match (d.o, d.u) {
                        (None, _) => enc_error(r, "Encrypt dict missing /"@ + "O"@),
                        (Some(_), None) => enc_error(r, "Encrypt dict missing /"@ + "U"@),
                        (Some(o), Some(u)) => {
                            let em = match d.encrypt_metadata {
                                Some(b) => b,
                                None => true,
                            };
                            match algorithm_for(v, d.std_cf_cfm) {
                                None => r matches Err(PdfError::UnsupportedFeature(m)) && m@ == "Encryption V="@ + decimal(v as nat),
                                Some(alg) => if rev == 5 || rev == 6 {
                                    match (d.ue, d.oe, d.perms) {
                                        (None, _, _) => enc_error(r, "Encrypt dict missing /"@ + "UE"@),
                                        (Some(_), None, _) => enc_error(r, "Encrypt dict missing /"@ + "OE"@),
                                        (Some(_), Some(_), None) => enc_error(r, "Encrypt dict missing /"@ + "Perms"@),
                                        (Some(ue), Some(oe), Some(perms)) => r5_r6_outcome(
                                            r, pw, o@, u@, ue@, oe@, perms@, rev, alg, em, p,
                                        ),
                                    }
                                } else if key_length / 8 > 16 {
                                    enc_error(r, "Encrypt /Length exceeds 128 bits"@)
                                } else if (rev == 3 || rev == 4) && u@.len() < 16 {
                                    enc_error(r, "Encrypt dict /U shorter than 16 bytes"@)
                                } else {
                                    let key = r2_r4_key(pw, o@, p, id, key_length as nat, rev, em);
                                    if user_password_matches(key, u@, id, rev) {
                                        r matches Ok(h) && h.holds(key, rev, alg, em, p)
                                    } else {
                                        r matches Err(PdfError::InvalidPassword)
                                    }
                                },
                            }
                        },
                    }
                },
            }
        },
    }
}

fn missing(key: &str) -> (r: PdfError)
    ensures
        r matches PdfError::EncryptionError(m) && m@ == "Encrypt dict missing /"@ + key@,
{
    let mut out: Vec<char> = Vec::new();
    append_str(&mut out, "Encrypt dict missing /");
    append_str(&mut out, key);
    PdfError::EncryptionError(string_from_chars(out.as_slice()))
}

fn uses_aes_v2(cfm: &Option<String>) -> (r: bool)
    ensures
        r == (cfm matches Some(n) && n@ == "AESV2"@),
{
    match cfm {
        Some(n) => str_eq(n.as_str(), "AESV2"),
        None => false,
    }
}

impl EncryptionHandler {
    /// Creates the handler from the `/Encrypt` dictionary, the first
    /// element of the file's `/ID` and a user or owner password.
    pub fn from_dict(encrypt_dict: &EncryptDict, id_first: &[u8], password: &[u8]) -> (r: PdfResult<Self>)
        ensures
            from_dict_outcome(*encrypt_dict, id_first@, password@, r),
    {
        let revision = match encrypt_dict.r {
            Some(rv) => rv as u8,
            None => return Err(missing("R")),
        };
        let v = match encrypt_dict.v {
            Some(x) => x,
            None => 0,
        } as u8;
        let key_length = match encrypt_dict.length {
            Some(x) => x,
            None => 40,
        } as usize;
        let p_value = match encrypt_dict.p {
            Some(x) => x as i32,
            None => return Err(missing("P")),
        };
        let o_value = match &encrypt_dict.o {
            Some(b) => b,
            None => return Err(missing("O")),
        };
        let u_value = match &encrypt_dict.u {
            Some(b) => b,
            None => return Err(missing("U")),
        };
        let encrypt_metadata = match encrypt_dict.encrypt_metadata {
            Some(b) => b,
            None => true,
        };
        let algorithm = if v == 1 || v == 2 {
            CryptAlgorithm::Rc4
        } else if v == 4 {
            if uses_aes_v2(&encrypt_dict.std_cf_cfm) {
                CryptAlgorithm::AesV2
            } else {
                CryptAlgorithm::Rc4
            }
        } else if v == 5 {
            CryptAlgorithm::AesV3
        } else {
            let mut out: Vec<char> = Vec::new();
            append_str(&mut out, "Encryption V=");
            push_decimal(&mut out, v as u64);
            return Err(PdfError::UnsupportedFeature(string_from_chars(out.as_slice())));
        };
        if revision == 5 || revision == 6 {
            let ue_value = match &encrypt_dict.ue {
                Some(b) => b,
                None => return Err(missing("UE")),
            };
            let oe_value = match &encrypt_dict.oe {
                Some(b) => b,
                None => return Err(missing("OE")),
            };
            let perms_value = match &encrypt_dict.perms {
                Some(b) => b,
                None => return Err(missing("Perms")),
            };
            let file_key = if validate_user_password_r5_r6(password, u_value.as_slice(), revision) {
                match compute_file_key_user(password, u_value.as_slice(), ue_value.as_slice(), revision) {
                    Ok(k) => k,
                    Err(e) => return Err(e),
                }
            } else if validate_owner_password_r5_r6(password, o_value.as_slice(), u_value.as_slice(), revision) {
                match compute_file_key_owner(
                    password,
                    o_value.as_slice(),
                    oe_value.as_slice(),
                    u_value.as_slice(),
                    revision,
                ) {
                    Ok(k) => k,
                    Err(e) => return Err(e),
                }
            } else {
                return Err(PdfError::InvalidPassword);
            };
            match validate_perms(file_key.as_slice(), perms_value.as_slice(), p_value) {
                Ok(()) => {},
                Err(e) => return Err(e),
            }
            return Ok(EncryptionHandler {
                key: EncryptionKey { key: file_key },
                revision,
                algorithm,
                encrypt_metadata,
                permissions: Permissions { flags: p_value },
            });
        }
        if key_length / 8 > 16 {
            return Err(encryption_error("Encrypt /Length exceeds 128 bits"));
        }
        if (revision == 3 || revision == 4) && u_value.len() < 16 {
            return Err(encryption_error("Encrypt dict /U shorter than 16 bytes"));
        }
        let enc_key = match EncryptionKey::compute_r2_r4(
            password,
            o_value.as_slice(),
            p_value,
            id_first,
            key_length,
            revision,
            encrypt_metadata,
        ) {
            Ok(k) => k,
            Err(e) => return Err(e),
        };
        if !enc_key.validate_user_password_r2_r4(u_value.as_slice(), id_first, revision) {
            return Err(PdfError::InvalidPassword);
        }
        Ok(EncryptionHandler {
            key: enc_key,
            revision,
            algorithm,
            encrypt_metadata,
            permissions: Permissions { flags: p_value },
        })
    }
}


/// The bytes of a String entry.
pub open spec fn string_bytes_of(o: Option<crate::objects::object::ObjView>) -> Option<Seq<u8>> {
    match o {
        Some(crate::objects::object::ObjView::String(b, _)) => Some(b),
        _ => None,
    }
}

/// Whether an optional byte vector holds the given bytes.
pub open spec fn opt_bytes_is(v: Option<Vec<u8>>, b: Option<Seq<u8>>) -> bool {
    match b {
        Some(x) => v matches Some(y) && y@ == x,
        None => v is None,
    }
}

/// The `/CFM` name of the `/StdCF` crypt filter of a `/CF` dictionary.
pub open spec fn std_cf_cfm_of(es: Seq<(Seq<char>, crate::objects::object::ObjView)>) -> Option<Seq<char>> {
    match crate::objects::object::lookup(es, "CF"@) {
        Some(crate::objects::object::ObjView::Dictionary(cf)) => match crate::objects::object::lookup(
            cf,
            "StdCF"@,
        ) {
            Some(crate::objects::object::ObjView::Dictionary(sc)) => match crate::objects::object::lookup(
                sc,
                "CFM"@,
            ) {
                Some(crate::objects::object::ObjView::Name(n)) => Some(n),
                _ => None,
            },
            _ => None,
        },
        _ => None,
    }
}

fn string_entry(d: &crate::objects::Dictionary, key: &str) -> (r: Option<Vec<u8>>)
    ensures
        opt_bytes_is(r, string_bytes_of(crate::objects::object::lookup(d@, key@))),
{
    match d.get(key) {
        Some(crate::objects::Object::String(s)) => {
            let v = crate::content::lexer::copy_bytes(s.bytes.as_slice(), 0, s.bytes.len());
            assert(v@ =~= s.bytes@);
            Some(v)
        },
        _ => None,
    }
}

impl EncryptDict {
    /// Reads the entries of an `/Encrypt` dictionary that the security
    /// handler uses.
    pub fn from_dictionary(d: &crate::objects::Dictionary) -> (r: EncryptDict)
        ensures
            r.r == crate::objects::object::int_value(crate::objects::object::lookup(d@, "R"@)),
            r.v == crate::objects::object::int_value(crate::objects::object::lookup(d@, "V"@)),
            r.length == crate::objects::object::int_value(crate::objects::object::lookup(d@, "Length"@)),
            r.p == crate::objects::object::int_value(crate::objects::object::lookup(d@, "P"@)),
            opt_bytes_is(r.o, string_bytes_of(crate::objects::object::lookup(d@, "O"@))),
            opt_bytes_is(r.u, string_bytes_of(crate::objects::object::lookup(d@, "U"@))),
            opt_bytes_is(r.ue, string_bytes_of(crate::objects::object::lookup(d@, "UE"@))),
            opt_bytes_is(r.oe, string_bytes_of(crate::objects::object::lookup(d@, "OE"@))),
            opt_bytes_is(r.perms, string_bytes_of(crate::objects::object::lookup(d@, "Perms"@))),
            r.encrypt_metadata == (match crate::objects::object::lookup(d@, "EncryptMetadata"@) {
                Some(crate::objects::object::ObjView::Boolean(b)) => Some(b),
                _ => None,
            }),
            match std_cf_cfm_of(d@) {
                Some(n) => r.std_cf_cfm matches Some(s) && s@ == n,
                None => r.std_cf_cfm is None,
            },
    {
        let std_cf_cfm = match d.get("CF") {
            Some(crate::objects::Object::Dictionary(cf)) => match cf.get("StdCF") {
                Some(crate::objects::Object::Dictionary(sc)) => match sc.get("CFM") {
                    Some(crate::objects::Object::Name(n)) => Some(n.0.clone()),
                    _ => None,
                },
                _ => None,
            },
            _ => None,
        };
        EncryptDict {
            r: d.get_i64("R"),
            v: d.get_i64("V"),
            length: d.get_i64("Length"),
            p: d.get_i64("P"),
            o: string_entry(d, "O"),
            u: string_entry(d, "U"),
            ue: string_entry(d, "UE"),
            oe: string_entry(d, "OE"),
            perms: string_entry(d, "Perms"),
            encrypt_metadata: match d.get("EncryptMetadata") {
                Some(crate::objects::Object::Boolean(b)) => Some(*b),
                _ => None,
            },
            std_cf_cfm,
        }
    }
}

} // verus!

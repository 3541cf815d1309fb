//! Key derivation and the sealed file format: a 12-byte nonce followed by
//! the AES-256-GCM ciphertext of the payload.

use aes_gcm::aead::Aead;
use aes_gcm::KeyInit;
use sha2::Digest;
use vstd::prelude::*;
use vstd::string::StringSliceAdditionalSpecFns;

verus! {

/// What SHA-256 digests to. Relied on: the digest is a function of the
/// input bytes alone.
pub uninterp spec fn spec_sha256(data: Seq<u8>) -> Seq<u8>;

/// Relies on sha2's SHA-256: a 32-byte digest of the input bytes.
#[verifier::external_body]
fn sha256(data: &[u8]) -> (r: Vec<u8>)
    ensures
        r@ == spec_sha256(data@),
        r@.len() == 32,
{
    sha2::Sha256::digest(data).to_vec()
}

/// Appends a byte slice to a byte vector.
fn append_bytes(dst: &mut Vec<u8>, src: &[u8])
    ensures
        final(dst)@ == old(dst)@ + src@,
{
    let ghost d0 = dst@;
    let n = src.len();
    for i in 0..n
        invariant
            n == src@.len(),
            dst@ == d0 + src@.take(i as int),
    {
        dst.push(src[i]);
        proof {
            assert(dst@ =~= d0 + src@.take(i + 1));
        }
    }
    proof {
        assert(src@.take(n as int) =~= src@);
        assert(dst@ =~= old(dst)@ + src@);
    }
}

/// Derive a 256-bit key from any string using SHA-256.
pub fn derive_key_from_string(input: &str) -> (key: Vec<u8>)
    ensures
        key@ == spec_sha256(input.spec_bytes()),
        key@.len() == 32,
{
    sha256(input.as_bytes())
}

/// Derive a 256-bit encryption key from a machine identifier, salted with
/// an application-specific suffix.
pub fn derive_key_from_machine_id(machine_id: &str) -> (key: Vec<u8>)
    ensures
        key@ == spec_sha256(
            machine_id.spec_bytes() + "-".spec_bytes()
                + "netmapper-2026-secure-aes256-gcm".spec_bytes(),
        ),
        key@.len() == 32,
{
    let mut buf: Vec<u8> = Vec::new();
    append_bytes(&mut buf, machine_id.as_bytes());
    append_bytes(&mut buf, "-".as_bytes());
    append_bytes(&mut buf, "netmapper-2026-secure-aes256-gcm".as_bytes());
    sha256(buf.as_slice())
}

/// What AES-256-GCM seals a payload to under a key and nonce: the
/// ciphertext with the 16-byte tag appended. Relied on: the result is a
/// function of key, nonce and plaintext alone, and distinct plaintexts
/// seal to distinct results.
pub uninterp spec fn spec_aes_gcm_seal(key: Seq<u8>, nonce: Seq<u8>, plaintext: Seq<u8>) -> Seq<
    u8,
>;

/// Relies on aes-gcm's AES-256-GCM encryption: deterministic in key,
/// nonce and plaintext, with a postfix 16-byte tag.
#[verifier::external_body]
fn aes_gcm_seal(key: &[u8], nonce: &[u8], plaintext: &[u8]) -> (r: Option<Vec<u8>>)
    requires
        key@.len() == 32,
        nonce@.len() == 12,
    ensures
        r is Some ==> r->0@ == spec_aes_gcm_seal(key@, nonce@, plaintext@) && r->0@.len()
            == plaintext@.len() + 16,
{
    let cipher = match aes_gcm::Aes256Gcm::new_from_slice(key) {
        Ok(c) => c,
        Err(_) => {
            return None;
        },
    };
    let nonce: &aes_gcm::aead::Nonce<aes_gcm::Aes256Gcm> = match nonce.try_into() {
        Ok(n) => n,
        Err(_) => {
            return None;
        },
    };
    cipher.encrypt(nonce, plaintext).ok()
}

/// Relies on aes-gcm's AES-256-GCM decryption: it inverts encryption and
/// accepts only an authentic ciphertext, so it succeeds exactly on a
/// sealing under the same key and nonce, returning the sealed payload.
#[verifier::external_body]
fn aes_gcm_open(key: &[u8], nonce: &[u8], ciphertext: &[u8]) -> (r: Option<Vec<u8>>)
    requires
        key@.len() == 32,
        nonce@.len() == 12,
    ensures
        r is Some ==> ciphertext@ == spec_aes_gcm_seal(key@, nonce@, r->0@),
        forall|pt: Seq<u8>|
            ciphertext@ == spec_aes_gcm_seal(key@, nonce@, pt) ==> r is Some && r->0@ == pt,
{
    let cipher = match aes_gcm::Aes256Gcm::new_from_slice(key) {
        Ok(c) => c,
        Err(_) => {
            return None;
        },
    };
    let nonce: &aes_gcm::aead::Nonce<aes_gcm::Aes256Gcm> = match nonce.try_into() {
        Ok(n) => n,
        Err(_) => {
            return None;
        },
    };
    cipher.decrypt(nonce, ciphertext).ok()
}

/// Seals a payload: the returned bytes are the nonce followed by the
/// AES-256-GCM ciphertext (with its tag).
pub fn encrypt_payload(key: &[u8], nonce: &[u8], plaintext: &[u8]) -> (r: Option<Vec<u8>>)
    requires
        key@.len() == 32,
        nonce@.len() == 12,
    ensures
        r is Some ==> r->0@ == nonce@ + spec_aes_gcm_seal(key@, nonce@, plaintext@),
        r is Some ==> r->0@.len() == plaintext@.len() + 28,
{
    match aes_gcm_seal(key, nonce, plaintext) {
        Some(sealed) => {
            let mut out: Vec<u8> = Vec::new();
            append_bytes(&mut out, nonce);
            append_bytes(&mut out, sealed.as_slice());
            Some(out)
        },
        None => None,
    }
}

/// Copies a range of a byte slice.
fn slice_range_to_vec(src: &[u8], from: usize, to: usize) -> (r: Vec<u8>)
    requires
        from <= to <= src@.len(),
    ensures
        r@ == src@.subrange(from as int, to as int),
{
    let mut r: Vec<u8> = Vec::new();
    let mut i: usize = from;
    while i < to
        invariant
            from <= i <= to,
            to <= src@.len(),
            r@ == src@.subrange(from as int, i as int),
        decreases to - i,
    {
        r.push(src[i]);
        proof {
            assert(r@ =~= src@.subrange(from as int, i + 1));
        }
        i = i + 1;
    }
    r
}

/// Opens a sealed payload: the first 12 bytes are the nonce, the rest the
/// ciphertext. Too-short input is rejected outright; otherwise the call
/// succeeds exactly when the ciphertext is a sealing of some payload under
/// the key and the embedded nonce, and returns that payload.
pub fn decrypt_payload(key: &[u8], data: &[u8]) -> (r: Result<Vec<u8>, String>)
    requires
        key@.len() == 32,
    ensures
        data@.len() < 12 ==> r is Err && r->Err_0@ == "Invalid encrypted file: too short"@,
        r is Ok ==> data@.len() >= 12 && data@.subrange(12, data@.len() as int)
            == spec_aes_gcm_seal(key@, data@.subrange(0, 12), r->Ok_0@),
        forall|pt: Seq<u8>|
            data@.len() >= 12 && data@.subrange(12, data@.len() as int) == spec_aes_gcm_seal(
                key@,
                data@.subrange(0, 12),
                pt,
            ) ==> r is Ok && r->Ok_0@ == pt,
{
    let len = data.len();
    if len < 12 {
        return Err(String::from_str("Invalid encrypted file: too short"));
    }
    let nonce = slice_range_to_vec(data, 0, 12);
    let ciphertext = slice_range_to_vec(data, 12, len);
    match aes_gcm_open(key, nonce.as_slice(), ciphertext.as_slice()) {
        Some(plaintext) => Ok(plaintext),
        None => Err(String::from_str("Decryption failed. Wrong machine?")),
    }
}

} // verus!

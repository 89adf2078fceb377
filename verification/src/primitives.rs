//! Thin bindings to the outside cryptographic crates. Every item here is
//! trusted: its contract is taken from the documentation or source of the
//! crate it calls, and nothing in this file is proved.

use hmac::Mac;
use pqcrypto::kem::kyber512;
use pqcrypto::sign::dilithium2;
use pqcrypto::traits::kem::Ciphertext as KemCiphertext;
use pqcrypto::traits::kem::PublicKey as KemPublicKey;
use pqcrypto::traits::kem::SecretKey as KemSecretKey;
use pqcrypto::traits::kem::SharedSecret as KemSharedSecret;
use pqcrypto::traits::sign::DetachedSignature as SignDetachedSignature;
use pqcrypto::traits::sign::PublicKey as SignPublicKey;
use pqcrypto::traits::sign::SecretKey as SignSecretKey;
use base64::Engine;
use ff::FromUniformBytes;
use ff::PrimeField;
use sha2::Digest;
use zeroize::Zeroize;
use vstd::prelude::*;
use crate::relayer::{opt_text, LockEventJson};

verus! {

/// The SHA-256 digest of `data`, as computed by the `sha2` crate.
pub uninterp spec fn sha256_spec(data: Seq<u8>) -> [u8; 32];

/// Calls `sha2::Sha256::digest`. The contract claims only that the digest is a
/// fixed function of the input bytes, named `sha256_spec`.
#[verifier::external_body]
pub(crate) fn sha256(data: &[u8]) -> (res: [u8; 32])
    ensures
        res == sha256_spec(data@),
{
    sha2::Sha256::digest(data).into()
}


/// HMAC-SHA256 of `msg` under `key`, as computed by the `hmac` and `sha2` crates.
pub uninterp spec fn hmac_sha256_spec(key: Seq<u8>, msg: Seq<u8>) -> [u8; 32];

/// Calls `Hmac::<Sha256>::new_from_slice`, `update` and `finalize`. HMAC takes
/// keys of any length (the `hmac` source never returns `InvalidLength` for
/// it), so the call always succeeds; the tag is named `hmac_sha256_spec`.
#[verifier::external_body]
pub(crate) fn hmac_sha256(key: &[u8], msg: &[u8]) -> (res: [u8; 32])
    ensures
        res == hmac_sha256_spec(key@, msg@),
{
    let mut mac = hmac::Hmac::<sha2::Sha256>::new_from_slice(key).expect("HMAC accepts any key length");
    mac.update(msg);
    mac.finalize().into_bytes().into()
}

#[verifier::external_type_specification]
#[verifier::external_body]
pub struct ExGetrandomError(getrandom::Error);

/// Calls `getrandom::getrandom` on a fresh buffer of `n` bytes. The bytes come
/// from the operating system, so nothing is claimed of them but their number;
/// the call fails only when the system source of randomness fails.
#[verifier::external_body]
pub(crate) fn os_random_bytes(n: usize) -> (res: Result<Vec<u8>, getrandom::Error>)
    ensures
        res matches Ok(v) ==> v@.len() == n,
{
    let mut buf = vec![0u8; n];
    getrandom::getrandom(&mut buf)?;
    Ok(buf)
}

/// Size in bytes of a Kyber-512 public key.
pub const KYBER512_PK_LEN: usize = 800;
/// Size in bytes of a Kyber-512 secret key.
pub const KYBER512_SK_LEN: usize = 1632;
/// Size in bytes of a Kyber-512 ciphertext.
pub const KYBER512_CT_LEN: usize = 768;
/// Size in bytes of a Dilithium2 public key.
pub const DILITHIUM2_PK_LEN: usize = 1312;
/// Size in bytes of a Dilithium2 secret key.
pub const DILITHIUM2_SK_LEN: usize = 2560;
/// Size in bytes of a Dilithium2 detached signature.
pub const DILITHIUM2_SIG_LEN: usize = 2420;

#[verifier::external_type_specification]
#[verifier::external_body]
pub struct ExPqcryptoError(pqcrypto::traits::Error);

/// Offset of the public key inside a Kyber-512 secret key.
pub const KYBER512_SK_PK_OFFSET: usize = 768;

/// Calls `pqcrypto::kem::kyber512::keypair`, which draws fresh randomness.
/// The contract claims the key sizes fixed by the crate (800 and 1632 bytes)
/// and that the secret key carries a copy of the public key at byte 768
/// (PQClean's `crypto_kem_keypair_derand` copies it there after the 768-byte
/// IND-CPA secret key).
#[verifier::external_body]
pub(crate) fn kyber512_keypair() -> (res: (Vec<u8>, Vec<u8>))
    ensures
        res.0@.len() == KYBER512_PK_LEN,
        res.1@.len() == KYBER512_SK_LEN,
        res.1@.subrange(KYBER512_SK_PK_OFFSET as int, KYBER512_SK_PK_OFFSET + KYBER512_PK_LEN) == res.0@,
{
    let (pk, sk) = kyber512::keypair();
    (pk.as_bytes().to_vec(), sk.as_bytes().to_vec())
}

/// Whether `ct` is a Kyber-512 ciphertext that encapsulates the shared
/// secret `ss` to the public key `pk`: one of the outcomes of
/// `kyber512::encapsulate(pk)`.
pub uninterp spec fn kyber512_encapsulates(ct: Seq<u8>, ss: Seq<u8>, pk: Seq<u8>) -> bool;

/// Calls `kyber512::PublicKey::from_bytes` and `kyber512::encapsulate`. The
/// key is rebuilt from bytes, which fails exactly when it is not 800 bytes
/// long (as the crate's `from_bytes` shows). Encapsulation draws fresh
/// randomness: what holds of every outcome is that the ciphertext
/// encapsulates the returned shared secret to `pk`.
#[verifier::external_body]
pub(crate) fn kyber512_encapsulate(pk: &[u8]) -> (res: Result<([u8; 768], [u8; 32]), pqcrypto::traits::Error>)
    ensures
        res is Ok <==> pk@.len() == KYBER512_PK_LEN,
        res matches Ok((ct, ss)) ==> kyber512_encapsulates(ct@, ss@, pk@),
{
    let pk = kyber512::PublicKey::from_bytes(pk)?;
    let (ss, ct) = kyber512::encapsulate(&pk);
    Ok((ct.as_bytes().try_into().unwrap(), ss.as_bytes().try_into().unwrap()))
}

/// The Dilithium2 public key that belongs to the secret key `sk`. PQClean's
/// key generation packs the public key from `rho` and `t1 = A(rho)·s1 + s2`
/// (high bits), and `rho`, `s1` and `s2` are all packed into the secret key,
/// so the public key is a function of the secret key.
pub uninterp spec fn dilithium2_public_key_of(sk: Seq<u8>) -> Seq<u8>;

/// Whether `sk` is a secret key as Dilithium2 key generation lays it out (in
/// particular, its `tr` field is the hash of its public key).
pub uninterp spec fn dilithium2_well_formed_secret(sk: Seq<u8>) -> bool;

/// Calls `pqcrypto::sign::dilithium2::keypair`, which draws fresh randomness.
/// The contract claims the key sizes fixed by the crate (1312 and 2560
/// bytes), that the secret key is well formed, and that the public key is the
/// one that belongs to it.
#[verifier::external_body]
pub(crate) fn dilithium2_keypair() -> (res: (Vec<u8>, Vec<u8>))
    ensures
        res.0@.len() == DILITHIUM2_PK_LEN,
        res.1@.len() == DILITHIUM2_SK_LEN,
        res.0@ == dilithium2_public_key_of(res.1@),
        dilithium2_well_formed_secret(res.1@),
{
    let (pk, sk) = dilithium2::keypair();
    (pk.as_bytes().to_vec(), sk.as_bytes().to_vec())
}

/// The detached Dilithium2 signature of `msg` under the secret key `sk`.
pub uninterp spec fn dilithium2_signature(msg: Seq<u8>, sk: Seq<u8>) -> Seq<u8>;

/// Calls `dilithium2::SecretKey::from_bytes` and `dilithium2::detached_sign`.
/// Rebuilding the key fails exactly when it is not 2560 bytes long. The
/// bundled PQClean signer draws no randomness (its `rnd` seed is all zeros),
/// so the signature is a function of message and key; it always has the
/// crate's full signature length of 2420 bytes. Signing under a well-formed
/// secret key gives a signature that verification accepts under the key's
/// public key (the crate's own `test_sign_detached` checks this; signing
/// retries until the signature meets the verifier's bounds).
#[verifier::external_body]
pub(crate) fn dilithium2_detached_sign(msg: &[u8], sk: &[u8]) -> (res: Result<Vec<u8>, pqcrypto::traits::Error>)
    ensures
        res is Ok <==> sk@.len() == DILITHIUM2_SK_LEN,
        res matches Ok(sig) ==> sig@ == dilithium2_signature(msg@, sk@),
        res matches Ok(sig) ==> sig@.len() == DILITHIUM2_SIG_LEN,
        res matches Ok(sig) ==> (dilithium2_well_formed_secret(sk@)
            ==> dilithium2_accepts(sig@, msg@, dilithium2_public_key_of(sk@))),
{
    let sk = dilithium2::SecretKey::from_bytes(sk)?;
    Ok(dilithium2::detached_sign(msg, &sk).as_bytes().to_vec())
}

/// Whether `dilithium2::verify_detached_signature` accepts `sig` on `msg`
/// under the public key `pk`.
pub uninterp spec fn dilithium2_accepts(sig: Seq<u8>, msg: Seq<u8>, pk: Seq<u8>) -> bool;

/// Calls `DetachedSignature::from_bytes`, `PublicKey::from_bytes` and
/// `dilithium2::verify_detached_signature`, answering `true` exactly when the
/// last returns `Ok`. Rebuilding fails for signatures longer than 2420 bytes
/// and for keys that are not 1312 bytes long, and the bundled PQClean verifier
/// refuses every signature whose length is not 2420 bytes: the answer is then
/// `false`.
#[verifier::external_body]
pub(crate) fn dilithium2_verify(sig: &[u8], msg: &[u8], pk: &[u8]) -> (res: bool)
    ensures
        res == dilithium2_accepts(sig@, msg@, pk@),
        sig@.len() != DILITHIUM2_SIG_LEN ==> !res,
        pk@.len() != DILITHIUM2_PK_LEN ==> !res,
{
    let sig = match dilithium2::DetachedSignature::from_bytes(sig) {
        Ok(sig) => sig,
        Err(_) => return false,
    };
    let pk = match dilithium2::PublicKey::from_bytes(pk) {
        Ok(pk) => pk,
        Err(_) => return false,
    };
    dilithium2::verify_detached_signature(&sig, msg, &pk).is_ok()
}

/// A byte vector that is wiped when dropped: it holds a
/// `zeroize::Zeroizing<Vec<u8>>`, hidden from Verus, whose bytes are named by
/// `secret_bytes_view`.
#[verifier::external_body]
pub struct SecretBytes {
    inner: zeroize::Zeroizing<Vec<u8>>,
}

/// The bytes a `SecretBytes` holds (what its `Zeroizing` vector derefs to).
pub uninterp spec fn secret_bytes_view(s: SecretBytes) -> Seq<u8>;

/// Calls `zeroize::Zeroizing::new`: the wrapper holds `v` as it is, and
/// wipes it when dropped.
#[verifier::external_body]
pub(crate) fn secret_bytes_new(v: Vec<u8>) -> (s: SecretBytes)
    ensures
        secret_bytes_view(s) == v@,
{
    SecretBytes { inner: zeroize::Zeroizing::new(v) }
}

/// Reads the bytes through `Zeroizing`'s `Deref`.
#[verifier::external_body]
pub(crate) fn secret_bytes_as_slice(s: &SecretBytes) -> (r: &[u8])
    ensures
        r@ == secret_bytes_view(*s),
{
    s.inner.as_slice()
}

/// Calls `Clone::clone` of `zeroize::Zeroizing`, which clones the vector
/// inside: the copy holds the same bytes.
#[verifier::external_body]
pub(crate) fn secret_bytes_clone(s: &SecretBytes) -> (c: SecretBytes)
    ensures
        secret_bytes_view(c) == secret_bytes_view(*s),
{
    SecretBytes { inner: s.inner.clone() }
}

/// Calls `zeroize::Zeroize::zeroize` on the `Zeroizing` vector, which
/// zeroizes the vector inside: the crate overwrites every element and the
/// spare capacity with zeros and then clears the vector.
#[verifier::external_body]
pub(crate) fn secret_bytes_wipe(s: &mut SecretBytes)
    ensures
        secret_bytes_view(*final(s)) == Seq::<u8>::empty(),
{
    s.inner.zeroize();
}

/// Calls `zeroize::Zeroize::zeroize` on a 32-byte array: every byte becomes 0.
#[verifier::external_body]
pub(crate) fn zeroize_array32(a: &mut [u8; 32])
    ensures
        final(a)@ == Seq::new(32, |i: int| 0u8),
{
    a.zeroize();
}

/// Whether `serde_json::from_str::<serde_json::Value>` accepts `text`.
pub uninterp spec fn json_parses(text: Seq<char>) -> bool;

/// The string member `key` of the JSON text `text` (`value[key].as_str()`).
pub uninterp spec fn json_str_member(text: Seq<char>, key: Seq<char>) -> Option<Seq<char>>;

/// The unsigned member `key` of the JSON text `text` (`value[key].as_u64()`).
pub uninterp spec fn json_u64_member(text: Seq<char>, key: Seq<char>) -> Option<u64>;

#[verifier::external_type_specification]
#[verifier::external_body]
pub struct ExJsonError(serde_json::Error);

/// Calls `serde_json::from_str` into a `serde_json::Value` and reads the
/// members `ct_key`, `sig_key` and `target_key` with `as_str` and
/// `height_key` with `as_u64`. Success and every member are named as
/// functions of the text and the member's name.
#[verifier::external_body]
pub(crate) fn read_lock_event_json(
    text: &str,
    ct_key: &str,
    sig_key: &str,
    height_key: &str,
    target_key: &str,
) -> (res: Result<LockEventJson, serde_json::Error>)
    ensures
        res is Ok <==> json_parses(text@),
        res matches Ok(f) ==> {
            &&& opt_text(f.ct) == json_str_member(text@, ct_key@)
            &&& opt_text(f.tx_sig) == json_str_member(text@, sig_key@)
            &&& f.height == json_u64_member(text@, height_key@)
            &&& opt_text(f.target) == json_str_member(text@, target_key@)
        },
{
    let v: serde_json::Value = serde_json::from_str(text)?;
    Ok(LockEventJson {
        ct: v[ct_key].as_str().map(String::from),
        tx_sig: v[sig_key].as_str().map(String::from),
        height: v[height_key].as_u64(),
        target: v[target_key].as_str().map(String::from),
    })
}

/// The bytes that the standard Base64 engine decodes `text` to, or `None`
/// when it refuses the text.
pub uninterp spec fn base64_decode_spec(text: Seq<char>) -> Option<Seq<u8>>;

#[verifier::external_type_specification]
#[verifier::external_body]
pub struct ExBase64DecodeError(base64::DecodeError);

/// Calls `base64::engine::general_purpose::STANDARD.decode`; the outcome is
/// named as a function of the text.
#[verifier::external_body]
pub(crate) fn base64_decode(text: &str) -> (res: Result<Vec<u8>, base64::DecodeError>)
    ensures
        res is Ok <==> base64_decode_spec(text@) is Some,
        res matches Ok(v) ==> base64_decode_spec(text@) == Some(v@),
{
    base64::engine::general_purpose::STANDARD.decode(text)
}

/// The character of the standard Base64 alphabet (RFC 4648) for the 6-bit
/// value `v`.
pub open spec fn base64_char(v: int) -> char {
    if v < 26 {
        (65 + v) as char
    } else if v < 52 {
        (97 + v - 26) as char
    } else if v < 62 {
        (48 + v - 52) as char
    } else if v == 62 {
        '+'
    } else {
        '/'
    }
}

/// Standard padded Base64 of `b` (RFC 4648): every three bytes become four
/// characters of six bits each, and a last group of one or two bytes is
/// completed with zero bits and padded with `=`.
pub open spec fn base64_encode_spec(b: Seq<u8>) -> Seq<char>
    decreases b.len(),
{
    let x0 = b[0] as int;
    let x1 = b[1] as int;
    let x2 = b[2] as int;
    if b.len() == 0 {
        Seq::empty()
    } else if b.len() == 1 {
        seq![base64_char(x0 / 4), base64_char((x0 % 4) * 16), '=', '=']
    } else if b.len() == 2 {
        seq![base64_char(x0 / 4), base64_char((x0 % 4) * 16 + x1 / 16), base64_char((x1 % 16) * 4), '=']
    } else {
        seq![
            base64_char(x0 / 4),
            base64_char((x0 % 4) * 16 + x1 / 16),
            base64_char((x1 % 16) * 4 + x2 / 64),
            base64_char(x2 % 64),
        ] + base64_encode_spec(b.subrange(3, b.len() as int))
    }
}

/// Calls `base64::engine::general_purpose::STANDARD.encode`, which writes
/// the standard padded Base64 of `bytes`. The call panics when the encoded
/// length, four characters for every started group of three bytes,
/// overflows `usize`, so `requires` rules that out.
#[verifier::external_body]
pub(crate) fn base64_encode(bytes: &[u8]) -> (res: String)
    requires
        4 * ((bytes@.len() + 2) / 3) <= usize::MAX,
    ensures
        res@ == base64_encode_spec(bytes@),
{
    base64::engine::general_purpose::STANDARD.encode(bytes)
}

/// The integer that the little-endian bytes `b` encode.
pub open spec fn le_value(b: Seq<u8>) -> nat
    decreases b.len(),
{
    if b.len() == 0 {
        0
    } else {
        b[0] as nat + 256 * le_value(b.drop_first())
    }
}

/// The order `r` of the BN256 scalar field.
pub open spec fn bn256_order() -> nat {
    21888242871839275222246405745257275088548364400416034343698204186575808495617nat
}

/// Calls `FromUniformBytes::<64>::from_uniform_bytes` for the BN256 scalar
/// field of `halo2curves` and returns `PrimeField::to_repr` of the scalar:
/// the 64-byte little-endian integer reduced modulo the field order, as 32
/// little-endian bytes.
#[verifier::external_body]
pub(crate) fn bn256_from_uniform_bytes(bytes: &[u8; 64]) -> (res: [u8; 32])
    ensures
        le_value(res@) == le_value(bytes@) % bn256_order(),
{
    halo2curves::bn256::Fr::from_uniform_bytes(bytes).to_repr()
}

} // verus!

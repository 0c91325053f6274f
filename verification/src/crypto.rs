//! Hashing, random bytes, and signatures with libp2p identity keys.
use vstd::prelude::*;
use libp2p::identity::{Keypair, PublicKey};

verus! {

/// Error of a cryptographic operation.
#[derive(Debug)]
pub struct CryptoError {
    message: String,
}

impl CryptoError {
    /// The message of the error.
    pub closed spec fn message_text(&self) -> Seq<char> {
        self.message@
    }

    /// The error as text: `Crypto error: ` and its message.
    pub fn to_string(&self) -> (r: String)
        ensures
            r@ == "Crypto error: "@ + self.message_text(),
    {
        let mut s = String::from_str("Crypto error: ");
        s.append(self.message.as_str());
        s
    }
}

impl From<&str> for CryptoError {
    fn from(err: &str) -> (r: CryptoError)
        ensures
            r.message_text() == err@,
    {
        CryptoError { message: String::from_str(err) }
    }
}

impl From<String> for CryptoError {
    fn from(err: String) -> (r: CryptoError)
        ensures
            r.message_text() == err@,
    {
        CryptoError { message: err }
    }
}

impl vstd::std_specs::convert::FromSpecImpl<&str> for CryptoError {
    open spec fn obeys_from_spec() -> bool {
        false
    }

    open spec fn from_spec(err: &str) -> CryptoError {
        arbitrary()
    }
}

impl vstd::std_specs::convert::FromSpecImpl<String> for CryptoError {
    open spec fn obeys_from_spec() -> bool {
        false
    }

    open spec fn from_spec(err: String) -> CryptoError {
        arbitrary()
    }
}

/// The SHA-256 digest of some bytes.
pub uninterp spec fn sha256_digest(data: Seq<u8>) -> Seq<u8>;

/// The BLAKE3 hash of some bytes.
pub uninterp spec fn blake3_digest(data: Seq<u8>) -> Seq<u8>;

/// Calls `sha2::Sha256` (`new`, `update`, `finalize`) on `data`: the result
/// is named by [`sha256_digest`] and is 32 bytes long, as the type says.
#[verifier::external_body]
fn sha256_raw(data: &[u8]) -> (r: [u8; 32])
    ensures
        r@ == sha256_digest(data@),
        r@.len() == 32,
{
    let mut hasher = <sha2::Sha256 as sha2::Digest>::new();
    sha2::Digest::update(&mut hasher, data);
    sha2::Digest::finalize(hasher).into()
}

/// Calls `blake3::hash` on `data` and copies out its bytes: the result is
/// named by [`blake3_digest`] and is 32 bytes long, as the type says.
#[verifier::external_body]
fn blake3_raw(data: &[u8]) -> (r: [u8; 32])
    ensures
        r@ == blake3_digest(data@),
        r@.len() == 32,
{
    *blake3::hash(data).as_bytes()
}

/// Calls `getrandom::getrandom` to fill `dest`: the length is kept, and an
/// empty `dest` succeeds at once without asking the system; what the bytes
/// are is chance and is not stated.
#[verifier::external_body]
fn fill_random(dest: &mut Vec<u8>) -> (r: bool)
    ensures
        final(dest)@.len() == old(dest)@.len(),
        old(dest)@.len() == 0 ==> r,
{
    getrandom::getrandom(dest.as_mut_slice()).is_ok()
}

/// `length` random bytes from the operating system; an error when it cannot
/// give them. No bytes are always given.
pub fn random_bytes(length: usize) -> (r: Result<Vec<u8>, CryptoError>)
    ensures
        r matches Ok(v) ==> v@.len() == length,
        length == 0 ==> r is Ok,
        r matches Err(e) ==> e.message_text() == "Failed to generate random bytes"@,
{
    let mut bytes: Vec<u8> = Vec::new();
    let mut i: usize = 0;
    while i < length
        invariant
            i <= length,
            bytes@.len() == i,
        decreases length - i,
    {
        bytes.push(0);
        i = i + 1;
    }
    if fill_random(&mut bytes) {
        Ok(bytes)
    } else {
        Err(CryptoError::from("Failed to generate random bytes"))
    }
}

/// The SHA-256 digest of `data`.
pub fn sha256(data: &[u8]) -> (r: [u8; 32])
    ensures
        r@ == sha256_digest(data@),
        r@.len() == 32,
{
    sha256_raw(data)
}

/// The 32-byte BLAKE3 hash of `data`, as signed.
pub fn hash_for_signing(data: &[u8]) -> (r: [u8; 32])
    ensures
        r@ == blake3_digest(data@),
        r@.len() == 32,
{
    blake3_raw(data)
}

/// The first 16 bytes of the BLAKE3 hash of `data`.
pub fn content_hash(data: &[u8]) -> (r: Vec<u8>)
    ensures
        r@ == blake3_digest(data@).subrange(0, 16),
{
    let full = blake3_raw(data);
    let mut r: Vec<u8> = Vec::new();
    let mut i: usize = 0;
    while i < 16
        invariant
            i <= 16,
            full@.len() == 32,
            r@ == full@.subrange(0, i as int),
        decreases 16 - i,
    {
        r.push(full[i]);
        i = i + 1;
        assert(r@ =~= full@.subrange(0, i as int));
    }
    r
}

/// Whether two byte strings are equal.
pub fn bytes_equal(a: &[u8], b: &[u8]) -> (r: bool)
    ensures
        r == (a@ == b@),
{
    if a.len() != b.len() {
        return false;
    }
    let mut i: usize = 0;
    while i < a.len()
        invariant
            a@.len() == b@.len(),
            i <= a@.len(),
            a@.subrange(0, i as int) == b@.subrange(0, i as int),
        decreases a@.len() - i,
    {
        if a[i] != b[i] {
            return false;
        }
        i = i + 1;
        assert(a@.subrange(0, i as int) =~= a@.subrange(0, i as int - 1).push(a@[i - 1]));
        assert(b@.subrange(0, i as int) =~= b@.subrange(0, i as int - 1).push(b@[i - 1]));
    }
    assert(a@ =~= a@.subrange(0, a@.len() as int));
    assert(b@ =~= b@.subrange(0, b@.len() as int));
    true
}

/// A libp2p identity keypair.
#[verifier::external_type_specification]
#[verifier::external_body]
pub struct ExKeypair(Keypair);

/// A libp2p identity public key.
#[verifier::external_type_specification]
#[verifier::external_body]
pub struct ExPublicKey(PublicKey);

/// The signature that `Keypair::sign` makes of `msg` with the keypair whose
/// protobuf encoding (`Keypair::to_protobuf_encoding`) is `key`.
pub uninterp spec fn keypair_signature(key: Seq<u8>, msg: Seq<u8>) -> Seq<u8>;

/// Whether `PublicKey::verify` accepts `sig` as a signature of `msg` under
/// the public key whose protobuf encoding (`PublicKey::encode_protobuf`) is
/// `public_key`.
pub uninterp spec fn signature_verifies(public_key: Seq<u8>, msg: Seq<u8>, sig: Seq<u8>) -> bool;

/// An identity keypair together with its protobuf encoding, which names
/// the key in contracts. The two are paired once, when the keypair is
/// taken in, and never apart.
pub struct IdentityKeypair {
    keypair: Keypair,
    encoding: Vec<u8>,
}

/// A public key together with its protobuf encoding, which names the key
/// in contracts.
pub struct IdentityPublicKey {
    key: PublicKey,
    encoding: Vec<u8>,
}

impl IdentityKeypair {
    /// The protobuf encoding of the keypair.
    pub closed spec fn encoding(&self) -> Seq<u8> {
        self.encoding@
    }

    /// Take in a libp2p keypair.
    pub fn from_keypair(keypair: Keypair) -> (r: IdentityKeypair) {
        pair_keypair(keypair)
    }

    /// The protobuf encoding of the keypair.
    pub fn encoding_bytes(&self) -> (r: &[u8])
        ensures
            r@ == self.encoding(),
    {
        self.encoding.as_slice()
    }
}

impl IdentityPublicKey {
    /// The protobuf encoding of the public key.
    pub closed spec fn encoding(&self) -> Seq<u8> {
        self.encoding@
    }

    /// Take in a libp2p public key.
    pub fn from_public_key(key: PublicKey) -> (r: IdentityPublicKey) {
        pair_public_key(key)
    }

    /// The protobuf encoding of the public key.
    pub fn encoding_bytes(&self) -> (r: &[u8])
        ensures
            r@ == self.encoding(),
    {
        self.encoding.as_slice()
    }
}

/// Calls `Keypair::to_protobuf_encoding` and keeps the keypair with its
/// encoding. With the key types built here (Ed25519 only) the encoding does
/// not fail; nothing is stated of its bytes.
#[verifier::external_body]
fn pair_keypair(keypair: Keypair) -> (r: IdentityKeypair) {
    let encoding = match keypair.to_protobuf_encoding() {
        Ok(e) => e,
        Err(_) => Vec::new(),
    };
    IdentityKeypair { keypair, encoding }
}

/// Calls `PublicKey::encode_protobuf` and keeps the key with its encoding;
/// nothing is stated of its bytes.
#[verifier::external_body]
fn pair_public_key(key: PublicKey) -> (r: IdentityPublicKey) {
    let encoding = key.encode_protobuf();
    IdentityPublicKey { key, encoding }
}

/// Calls `Keypair::sign` on a message: the signature of the keypair whose
/// encoding is held beside it. With the key types built here (Ed25519
/// only) signing does not fail, and Ed25519 signing is deterministic in the
/// key and the message.
#[verifier::external_body]
fn keypair_sign(keypair: &IdentityKeypair, msg: &[u8]) -> (r: Vec<u8>)
    ensures
        r@ == keypair_signature(keypair.encoding(), msg@),
{
    match keypair.keypair.sign(msg) {
        Ok(sig) => sig,
        Err(_) => Vec::new(),
    }
}

/// Calls `PublicKey::verify` on a message and a signature: the verdict of
/// the key whose encoding is held beside it.
#[verifier::external_body]
fn public_key_verify(key: &IdentityPublicKey, msg: &[u8], sig: &[u8]) -> (r: bool)
    ensures
        r == signature_verifies(key.encoding(), msg@, sig@),
{
    key.key.verify(msg, sig)
}

/// Sign the BLAKE3 hash of `data` with a keypair: the keypair's signature
/// of that hash. Signing does not fail with the key types built here.
pub fn sign_with_keypair(keypair: &IdentityKeypair, data: &[u8]) -> (r: Result<Vec<u8>, CryptoError>)
    ensures
        r matches Ok(s) && s@ == keypair_signature(keypair.encoding(), blake3_digest(data@)),
{
    let hash = hash_for_signing(data);
    Ok(keypair_sign(keypair, hash.as_slice()))
}

/// Whether `signature` is a signature of the BLAKE3 hash of `data` under a
/// public key; always `Ok`, with the key's verdict on that hash.
pub fn verify_with_public_key(pubkey: &IdentityPublicKey, data: &[u8], signature: &[u8]) -> (r: Result<bool, CryptoError>)
    ensures
        r matches Ok(b) && b == signature_verifies(pubkey.encoding(), blake3_digest(data@), signature@),
{
    let hash = hash_for_signing(data);
    Ok(public_key_verify(pubkey, hash.as_slice(), signature))
}

} // verus!

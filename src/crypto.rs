use sha2::Digest;
use ed25519_dalek::{Signer, Verifier};
use crate::blockchain::{block_bytes, Block, BlockModel};
use vstd::prelude::*;

verus! {

/// Number of bytes in a digest.
pub const DIGEST_BYTES: usize = 32;

/// Number of bytes in a secret or a public key.
pub const KEY_BYTES: usize = 32;

/// Number of bytes in a signature.
pub const SIGNATURE_BYTES: usize = 64;

/// The SHA-256 digest of a byte string.
pub uninterp spec fn sha256(data: Seq<u8>) -> Seq<u8>;

/// The Ed25519 public key that belongs to a 32-byte secret key.
pub uninterp spec fn ed25519_public(secret: Seq<u8>) -> Seq<u8>;

/// The (deterministic) Ed25519 signature of a message under a 32-byte secret key.
pub uninterp spec fn ed25519_signature(secret: Seq<u8>, msg: Seq<u8>) -> Seq<u8>;

/// Whether Ed25519 verification accepts a signature on a message under a public key.
pub uninterp spec fn ed25519_accepts(public: Seq<u8>, msg: Seq<u8>, sig: Seq<u8>) -> bool;

/// Relies on sha2::Sha256::digest: the SHA-256 digest of the input, 32 bytes long.
#[verifier::external_body]
fn sha256_bytes(data: &[u8]) -> (r: Vec<u8>)
    ensures
        r@ == sha256(data@),
        r@.len() == DIGEST_BYTES,
{
    sha2::Sha256::digest(data).to_vec()
}

/// Relies on ed25519_dalek::SecretKey::from_bytes (which accepts any 32 bytes)
/// and `PublicKey::from(&SecretKey)`: the public key of a secret key, 32 bytes long.
#[verifier::external_body]
fn ed25519_public_bytes(secret: &[u8]) -> (r: Vec<u8>)
    requires
        secret@.len() == KEY_BYTES,
    ensures
        r@ == ed25519_public(secret@),
        r@.len() == KEY_BYTES,
{
    let sk = ed25519_dalek::SecretKey::from_bytes(secret).unwrap();
    ed25519_dalek::PublicKey::from(&sk).to_bytes().to_vec()
}

/// Relies on `Signer::sign` of ed25519_dalek::Keypair, with the keypair built
/// from the secret key and its derived public key: a 64-byte signature that
/// depends on the secret key and the message alone.
#[verifier::external_body]
fn ed25519_sign_bytes(secret: &[u8], msg: &[u8]) -> (r: Vec<u8>)
    requires
        secret@.len() == KEY_BYTES,
    ensures
        r@ == ed25519_signature(secret@, msg@),
        r@.len() == SIGNATURE_BYTES,
{
    let sk = ed25519_dalek::SecretKey::from_bytes(secret).unwrap();
    let pk = ed25519_dalek::PublicKey::from(&sk);
    let kp = ed25519_dalek::Keypair { secret: sk, public: pk };
    kp.sign(msg).to_bytes().to_vec()
}

/// Relies on `Verifier::verify` of ed25519_dalek::PublicKey, after
/// `PublicKey::from_bytes` and `Signature::from_bytes`: a key or a signature
/// that does not parse is not accepted.
#[verifier::external_body]
fn ed25519_verify_bytes(public: &[u8], msg: &[u8], sig: &[u8]) -> (r: bool)
    ensures
        r == ed25519_accepts(public@, msg@, sig@),
{
    match (ed25519_dalek::PublicKey::from_bytes(public), ed25519_dalek::Signature::from_bytes(sig)) {
        (Ok(pk), Ok(s)) => pk.verify(msg, &s).is_ok(),
        _ => false,
    }
}

/// Strict lexicographic order on byte strings (a proper prefix comes first).
pub open spec fn bytes_lt(a: Seq<u8>, b: Seq<u8>) -> bool
    decreases a.len(),
{
    if a.len() == 0 || b.len() == 0 {
        a.len() < b.len()
    } else if a[0] != b[0] {
        a[0] < b[0]
    } else {
        bytes_lt(a.drop_first(), b.drop_first())
    }
}

/// The byte order is irreflexive and asymmetric.
pub proof fn lemma_bytes_lt_asymmetric(a: Seq<u8>, b: Seq<u8>)
    ensures
        bytes_lt(a, b) ==> !bytes_lt(b, a),
        !bytes_lt(a, a),
    decreases a.len(),
{
    if a.len() > 0 && b.len() > 0 && a[0] == b[0] {
        lemma_bytes_lt_asymmetric(a.drop_first(), b.drop_first());
    }
    if a.len() > 0 {
        lemma_bytes_lt_asymmetric(a.drop_first(), a.drop_first());
    }
}

/// The byte order is transitive.
pub proof fn lemma_bytes_lt_transitive(a: Seq<u8>, b: Seq<u8>, c: Seq<u8>)
    requires
        bytes_lt(a, b),
        bytes_lt(b, c),
    ensures
        bytes_lt(a, c),
    decreases a.len(),
{
    if a.len() > 0 && b.len() > 0 && c.len() > 0 && a[0] == b[0] && b[0] == c[0] {
        lemma_bytes_lt_transitive(a.drop_first(), b.drop_first(), c.drop_first());
    }
}

/// Two different byte strings are ordered one way or the other.
pub proof fn lemma_bytes_lt_total(a: Seq<u8>, b: Seq<u8>)
    ensures
        a == b || bytes_lt(a, b) || bytes_lt(b, a),
    decreases a.len(),
{
    if a.len() > 0 && b.len() > 0 && a[0] == b[0] {
        lemma_bytes_lt_total(a.drop_first(), b.drop_first());
        if a.drop_first() == b.drop_first() {
            assert(a =~= seq![a[0]] + a.drop_first());
            assert(b =~= seq![b[0]] + b.drop_first());
        }
    } else if a.len() == 0 && b.len() == 0 {
        assert(a =~= b);
    }
}

/// A fixed-size digest of a value.
pub struct HashOf {
    hash: Vec<u8>,
}

impl View for HashOf {
    type V = Seq<u8>;

    closed spec fn view(&self) -> Seq<u8> {
        self.hash@
    }
}

impl HashOf {
    /// The SHA-256 digest of a byte string.
    pub fn new(data: &[u8]) -> (r: HashOf)
        ensures
            r@ == sha256(data@),
            r@.len() == DIGEST_BYTES,
    {
        HashOf { hash: sha256_bytes(data) }
    }

    /// A digest with the given bytes, as received from elsewhere.
    pub fn from_bytes(bytes: Vec<u8>) -> (r: HashOf)
        ensures
            r@ == bytes@,
    {
        HashOf { hash: bytes }
    }

    /// The digest's bytes.
    pub fn as_bytes(&self) -> (r: &[u8])
        ensures
            r@ == self@,
    {
        self.hash.as_slice()
    }

    /// Whether this digest comes strictly before another in byte order.
    pub fn less_than(&self, other: &HashOf) -> (r: bool)
        ensures
            r == bytes_lt(self@, other@),
    {
        let a = &self.hash;
        let b = &other.hash;
        let mut i: usize = 0;
        assert(a@.skip(0) =~= a@ && b@.skip(0) =~= b@);
        while i < a.len() && i < b.len() && a[i] == b[i]
            invariant
                i <= a@.len(),
                i <= b@.len(),
                bytes_lt(a@, b@) == bytes_lt(a@.skip(i as int), b@.skip(i as int)),
            decreases a@.len() - i,
        {
            assert(a@.skip(i as int).drop_first() =~= a@.skip(i + 1));
            assert(b@.skip(i as int).drop_first() =~= b@.skip(i + 1));
            i = i + 1;
        }
        if i < a.len() && i < b.len() {
            a[i] < b[i]
        } else {
            a.len() - i < b.len() - i
        }
    }
}

impl Clone for HashOf {
    fn clone(&self) -> (r: HashOf)
        ensures
            r@ == self@,
    {
        HashOf { hash: self.hash.clone() }
    }
}

impl PartialEq for HashOf {
    fn eq(&self, other: &HashOf) -> (r: bool) {
        bytes_equal(self.hash.as_slice(), other.hash.as_slice())
    }
}

impl vstd::std_specs::cmp::PartialEqSpecImpl for HashOf {
    open spec fn obeys_eq_spec() -> bool {
        true
    }

    open spec fn eq_spec(&self, other: &HashOf) -> bool {
        self@ == other@
    }
}


/// Why a signature check failed.
#[derive(Debug, PartialEq, Eq, Structural)]
pub enum CryptoError {
    /// The signature does not verify under the given public key.
    SignatureVerificationError,
}

/// An Ed25519 public key, as its bytes.
pub struct PublicKey {
    bytes: Vec<u8>,
}

impl View for PublicKey {
    type V = Seq<u8>;

    closed spec fn view(&self) -> Seq<u8> {
        self.bytes@
    }
}

impl Clone for PublicKey {
    fn clone(&self) -> (r: PublicKey)
        ensures
            r@ == self@,
    {
        PublicKey { bytes: self.bytes.clone() }
    }
}

impl PublicKey {
    /// A public key with the given bytes; bytes that do not parse as a key
    /// verify no signature.
    pub fn from_bytes(bytes: Vec<u8>) -> (r: PublicKey)
        ensures
            r@ == bytes@,
    {
        PublicKey { bytes }
    }

    /// The key's bytes.
    pub fn as_bytes(&self) -> (r: &[u8])
        ensures
            r@ == self@,
    {
        self.bytes.as_slice()
    }

    /// Whether two keys have the same bytes.
    pub fn same_as(&self, other: &PublicKey) -> (r: bool)
        ensures
            r == (self@ == other@),
    {
        bytes_equal(self.bytes.as_slice(), other.bytes.as_slice())
    }
}

/// Whether two byte strings are equal.
fn bytes_equal(a: &[u8], b: &[u8]) -> (r: bool)
    ensures
        r == (a@ == b@),
{
    if a.len() != b.len() {
        return false;
    }
    let mut i: usize = 0;
    while i < a.len()
        invariant
            a@.len() == b@.len(),
            i <= a@.len(),
            forall|k: int| 0 <= k < i ==> a@[k] == b@[k],
        decreases a@.len() - i,
    {
        if a[i] != b[i] {
            assert(a@[i as int] != b@[i as int]);
            return false;
        }
        i = i + 1;
    }
    assert(a@ =~= b@);
    true
}

/// An Ed25519 secret key together with its public key.
pub struct Keypair {
    secret: Vec<u8>,
    public: PublicKey,
}

impl Keypair {
    #[verifier::type_invariant]
    spec fn inv(&self) -> bool {
        &&& self.secret@.len() == KEY_BYTES
        &&& self.public@ == ed25519_public(self.secret@)
    }

    /// The secret key's bytes.
    pub closed spec fn secret(&self) -> Seq<u8> {
        self.secret@
    }

    /// The public key that belongs to this keypair.
    pub open spec fn public_spec(&self) -> Seq<u8> {
        ed25519_public(self.secret())
    }

    /// The keypair of a 32-byte secret key; `None` for any other length.
    pub fn from_secret(secret: &[u8]) -> (r: Option<Keypair>)
        ensures
            r is Some <==> secret@.len() == KEY_BYTES,
            r matches Some(kp) ==> kp.secret() == secret@,
    {
        if secret.len() != KEY_BYTES {
            return None;
        }
        let public = PublicKey { bytes: ed25519_public_bytes(secret) };
        let mut bytes: Vec<u8> = Vec::new();
        let mut i: usize = 0;
        while i < secret.len()
            invariant
                i <= secret@.len(),
                bytes@ =~= secret@.subrange(0, i as int),
            decreases secret@.len() - i,
        {
            bytes.push(secret[i]);
            i = i + 1;
        }
        assert(bytes@ =~= secret@);
        Some(Keypair { secret: bytes, public })
    }

    /// The public key of this keypair.
    pub fn public(&self) -> (r: PublicKey)
        ensures
            r@ == self.public_spec(),
    {
        proof {
            use_type_invariant(self);
        }
        self.public.clone()
    }

    /// The Ed25519 signature of `msg` under this keypair.
    pub fn sign(&self, msg: &[u8]) -> (r: Vec<u8>)
        ensures
            r@ == ed25519_signature(self.secret(), msg@),
    {
        proof {
            use_type_invariant(self);
        }
        ed25519_sign_bytes(self.secret.as_slice(), msg)
    }
}

/// What a signed block holds, as plain values.
pub struct SignedModel {
    pub data: BlockModel,
    pub signature: Seq<u8>,
}

/// A block together with a signature over its canonical encoding.
pub struct Signed {
    signature: Vec<u8>,
    data: Block,
}

impl View for Signed {
    type V = SignedModel;

    closed spec fn view(&self) -> SignedModel {
        SignedModel { data: self.data@, signature: self.signature@ }
    }
}

impl Clone for Signed {
    fn clone(&self) -> (r: Signed)
        ensures
            r@ == self@,
    {
        Signed { signature: self.signature.clone(), data: self.data.clone() }
    }
}

/// Whether the signature of `s` verifies on its block under the public key `pk`.
pub open spec fn signature_valid(pk: Seq<u8>, s: SignedModel) -> bool {
    ed25519_accepts(pk, block_bytes(s.data), s.signature)
}

impl Signed {
    /// Signs the canonical encoding of `to_sign` with `keypair`.
    pub fn new(to_sign: Block, keypair: &Keypair) -> (r: Signed)
        ensures
            r@.data == to_sign@,
            r@.signature == ed25519_signature(keypair.secret(), block_bytes(to_sign@)),
    {
        let bytes = to_sign.encode();
        let signature = keypair.sign(bytes.as_slice());
        Signed { signature, data: to_sign }
    }

    /// A block with a signature as given, checked by nothing.
    pub fn from_parts(data: Block, signature: Vec<u8>) -> (r: Signed)
        ensures
            r@ == (SignedModel { data: data@, signature: signature@ }),
    {
        Signed { signature, data }
    }

    /// Checks the signature under `pk`.
    pub fn verify(&self, pk: &PublicKey) -> (r: Result<(), CryptoError>)
        ensures
            r is Ok <==> signature_valid(pk@, self@),
            r is Err ==> r == Err::<(), CryptoError>(CryptoError::SignatureVerificationError),
    {
        let bytes = self.data.encode();
        if ed25519_verify_bytes(pk.as_bytes(), bytes.as_slice(), self.signature.as_slice()) {
            Ok(())
        } else {
            Err(CryptoError::SignatureVerificationError)
        }
    }

    /// The signed block.
    pub fn get_data(&self) -> (r: &Block)
        ensures
            r@ == self@.data,
    {
        &self.data
    }

    /// The signature's bytes.
    pub fn signature(&self) -> (r: &[u8])
        ensures
            r@ == self@.signature,
    {
        self.signature.as_slice()
    }
}

} // verus!

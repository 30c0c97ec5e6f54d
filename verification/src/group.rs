//! Keys, ciphertexts and group elements of the ElGamal scheme over the
//! Ristretto group.
//!
//! A value is kept in its canonical encoding: a public key and a group element
//! as the 32 bytes of the compressed point, a secret key and a ciphertext as
//! the JSON text that `elastic-elgamal` writes for them. The arithmetic is done
//! by that crate, on values decoded for the call.

use elastic_elgamal::group::{ElementOps, Ristretto};
use vstd::prelude::*;

verus! {

/// Public key of a participant, or the shared key of a poll.
#[derive(Clone, Copy, Debug, PartialEq, Eq, Hash)]
pub struct PublicKey {
    pub bytes: [u8; 32],
}

impl View for PublicKey {
    type V = Seq<u8>;

    open spec fn view(&self) -> Seq<u8> {
        self.bytes@
    }
}

impl PublicKey {
    /// Wraps the encoding of a key. The bytes are not decoded here: a key that
    /// names no group element fails every check made with it.
    pub fn from_bytes(bytes: [u8; 32]) -> (key: PublicKey)
        ensures
            key.bytes == bytes,
    {
        PublicKey { bytes }
    }

    pub fn as_bytes(&self) -> (bytes: &[u8; 32])
        ensures
            *bytes == self.bytes,
    {
        &self.bytes
    }

    /// Whether both keys have the same encoding, which for valid keys means
    /// that they are the same group element.
    pub fn same_as(&self, other: &PublicKey) -> (same: bool)
        ensures
            same == (self@ == other@),
    {
        crate::encoding::bytes_equal(self.bytes.as_slice(), other.bytes.as_slice())
    }
}

/// Pair of a secret key and the public key that belongs to it.
///
/// The secret key is kept as the JSON text that `elastic-elgamal` writes for
/// it. It is not readable from outside the crate, and the pair is not printed
/// for debugging.
#[derive(Clone)]
pub struct Keypair {
    pub(crate) secret: String,
    pub(crate) public: PublicKey,
}

impl Keypair {
    /// The public key of the pair, in specifications.
    pub closed spec fn public_key(&self) -> PublicKey {
        self.public
    }

    /// The encoded secret key of the pair, in specifications.
    pub closed spec fn secret_text(&self) -> Seq<char> {
        self.secret@
    }

    /// Whether the secret key of the pair can be read, which it takes to make
    /// a proof with the pair.
    pub open spec fn readable(&self) -> bool {
        keypair_decodes(self.secret_text())
    }

    /// Draws a new pair from the operating system's random source. The secret
    /// key of the pair can be read.
    pub fn generate() -> (keys: Keypair)
        ensures
            keys.readable(),
    {
        random_keypair()
    }

    /// The pair that belongs to the poll `poll_id` under the master secret
    /// `seed`. The same seed and poll always give the same pair, whose secret
    /// key can be read.
    pub fn derive(seed: &[u8; 32], poll_id: &[u8; 32]) -> (keys: Keypair)
        ensures
            keys.secret_text() == derived_keys(seed@, poll_id@).0,
            keys.public_key()@ == derived_keys(seed@, poll_id@).1,
            keys.readable(),
    {
        derived_keypair(seed, poll_id)
    }

    pub fn public(&self) -> (key: &PublicKey)
        ensures
            *key == self.public_key(),
    {
        &self.public
    }
}

/// ElGamal ciphertext, kept as the JSON text that `elastic-elgamal` writes for
/// it: an object with the fields `random_element` and `blinded_element`.
#[derive(Clone, Debug, PartialEq, Eq)]
pub struct Ciphertext {
    pub json: String,
}

impl View for Ciphertext {
    type V = Seq<char>;

    open spec fn view(&self) -> Seq<char> {
        self.json@
    }
}

/// The encoded texts of `ciphertexts`.
pub open spec fn texts(ciphertexts: Seq<Ciphertext>) -> Seq<Seq<char>> {
    Seq::new(ciphertexts.len(), |j: int| ciphertexts[j]@)
}

/// Partial decryption of a ciphertext by one participant: the ciphertext's
/// random element multiplied by the participant's secret key. It is kept as
/// the JSON text that `elastic-elgamal` writes for it, an object with the
/// field `dh_element`, and is not verified by being held in this type.
#[derive(Clone, Debug, PartialEq, Eq)]
pub struct CandidateDecryption {
    pub json: String,
}

impl View for CandidateDecryption {
    type V = Seq<char>;

    open spec fn view(&self) -> Seq<char> {
        self.json@
    }
}

/// The encoding of the ciphertext of zero without blinding: both elements are
/// the group's identity, whose compressed form is 32 zero bytes.
pub const ZERO_CIPHERTEXT: &'static str =
    "{\"random_element\":\"AAAAAAAAAAAAAAAAAAAAAAAAAAAAAAAAAAAAAAAAAAA\",\"blinded_element\":\"AAAAAAAAAAAAAAAAAAAAAAAAAAAAAAAAAAAAAAAAAAA\"}";

/// The secret key, as encoded text, and the public key, as bytes, that are
/// derived from the master secret `seed` for the poll `poll_id`.
pub uninterp spec fn derived_keys(seed: Seq<u8>, poll_id: Seq<u8>) -> (Seq<char>, Seq<u8>);

/// Whether the text `secret` decodes to a secret key and, with it, to a key
/// pair.
pub uninterp spec fn keypair_decodes(secret: Seq<char>) -> bool;

/// Whether the bytes `key` decode to a public key: whether they are the
/// compressed form of a group element other than the identity.
pub uninterp spec fn public_key_decodes(key: Seq<u8>) -> bool;

/// Whether the text `ciphertext` decodes to a ciphertext.
pub uninterp spec fn ciphertext_decodes(ciphertext: Seq<char>) -> bool;

/// The sum of two public keys, or `None` where one of them does not decode to
/// a public key.
pub uninterp spec fn key_sum(a: Seq<u8>, b: Seq<u8>) -> Option<Seq<u8>>;

/// The sum of two ciphertexts, or `None` where one of them does not decode.
pub uninterp spec fn ciphertext_sum(a: Seq<char>, b: Seq<char>) -> Option<Seq<char>>;

/// The blinded element of a ciphertext, or `None` where it does not decode.
pub uninterp spec fn blinded_element(ciphertext: Seq<char>) -> Option<Seq<u8>>;

/// The group element `element` minus the element of the decryption share
/// `share`, or `None` where one of the two does not decode.
pub uninterp spec fn element_without_share(element: Seq<u8>, share: Seq<char>) -> Option<Seq<u8>>;

/// The number in `0..=max` of which `element` is the multiple of the group's
/// generator, or `None` where there is none or `element` does not decode.
pub uninterp spec fn discrete_log(element: Seq<u8>, max: u64) -> Option<u64>;

/// Calls `elastic_elgamal::Keypair::generate` with `rand_core::OsRng` and
/// encodes both keys. The keys are random; what is claimed is that the secret
/// key decodes again from the text that was written for it: the crate writes
/// the canonical bytes of the scalar, which are what it reads.
#[verifier::external_body]
fn random_keypair() -> (keys: Keypair)
    ensures
        keypair_decodes(keys.secret@),
{
    let keys = elastic_elgamal::Keypair::<Ristretto>::generate(&mut rand_core::OsRng);
    Keypair {
        secret: serde_json::to_string(keys.secret()).expect("a key always serializes"),
        public: PublicKey { bytes: keys.public().as_bytes().try_into().expect("32 bytes") },
    }
}

/// Calls `secret_tree::SecretTree::from_seed`, `digest` and `rng` to seed
/// `elastic_elgamal::Keypair::generate`, and encodes both keys. The generator
/// is seeded by the arguments alone, so the result is named. As for a random
/// pair, the secret key decodes again from the text that was written for it.
#[verifier::external_body]
fn derived_keypair(seed: &[u8; 32], poll_id: &[u8; 32]) -> (keys: Keypair)
    ensures
        keys.secret@ == derived_keys(seed@, poll_id@).0,
        keys.public@ == derived_keys(seed@, poll_id@).1,
        keypair_decodes(keys.secret@),
{
    let tree = secret_tree::SecretTree::from_seed(secret_tree::Seed::from(*seed));
    let mut rng = tree.digest(poll_id).rng();
    let keys = elastic_elgamal::Keypair::<Ristretto>::generate(&mut rng);
    Keypair {
        secret: serde_json::to_string(keys.secret()).expect("a key always serializes"),
        public: PublicKey { bytes: keys.public().as_bytes().try_into().expect("32 bytes") },
    }
}

/// Decodes both keys with `elastic_elgamal::PublicKey::from_bytes` and adds
/// them. The sum is named; it is `None` exactly where a key does not decode.
#[verifier::external_body]
pub(crate) fn add_keys(a: &PublicKey, b: &PublicKey) -> (sum: Option<PublicKey>)
    ensures
        match sum {
            Some(key) => key_sum(a@, b@) == Some(key@),
            None => key_sum(a@, b@) is None,
        },
{
    let a = elastic_elgamal::PublicKey::<Ristretto>::from_bytes(&a.bytes);
    let b = elastic_elgamal::PublicKey::<Ristretto>::from_bytes(&b.bytes);
    let sum = a.ok()? + b.ok()?;
    Some(PublicKey { bytes: sum.as_bytes().try_into().ok()? })
}

/// Calls `elastic_elgamal::Ciphertext::zero` and encodes the result, which is
/// the constant [`ZERO_CIPHERTEXT`].
#[verifier::external_body]
pub(crate) fn zero_ciphertext() -> (zero: Ciphertext)
    ensures
        zero@ == ZERO_CIPHERTEXT@,
{
    let zero = elastic_elgamal::Ciphertext::<Ristretto>::zero();
    Ciphertext { json: serde_json::to_string(&zero).expect("a ciphertext always serializes") }
}

/// Decodes both ciphertexts with `serde_json::from_str` and adds them. The sum
/// is named; it is `None` exactly where a ciphertext does not decode.
#[verifier::external_body]
pub(crate) fn add_ciphertexts(a: &Ciphertext, b: &Ciphertext) -> (sum: Option<Ciphertext>)
    ensures
        match sum {
            Some(ciphertext) => ciphertext_sum(a@, b@) == Some(ciphertext@),
            None => ciphertext_sum(a@, b@) is None,
        },
{
    let a: elastic_elgamal::Ciphertext<Ristretto> = serde_json::from_str(&a.json).ok()?;
    let b: elastic_elgamal::Ciphertext<Ristretto> = serde_json::from_str(&b.json).ok()?;
    Some(Ciphertext { json: serde_json::to_string(&(a + b)).ok()? })
}

/// Decodes the ciphertext with `serde_json::from_str`, calls
/// `Ciphertext::blinded_element` and writes the element with
/// `ElementOps::serialize_element`. The element is named.
#[verifier::external_body]
pub(crate) fn blinded_element_of(ciphertext: &Ciphertext) -> (element: Option<[u8; 32]>)
    ensures
        match element {
            Some(bytes) => blinded_element(ciphertext@) == Some(bytes@),
            None => blinded_element(ciphertext@) is None,
        },
{
    let decoded: elastic_elgamal::Ciphertext<Ristretto> =
        serde_json::from_str(&ciphertext.json).ok()?;
    let mut bytes = [0u8; 32];
    Ristretto::serialize_element(decoded.blinded_element(), &mut bytes);
    Some(bytes)
}

/// Decodes the element with `ElementOps::deserialize_element` and the share
/// with `serde_json::from_str`, subtracts the share's element and writes the
/// difference with `ElementOps::serialize_element`. The difference is named.
#[verifier::external_body]
pub(crate) fn subtract_share(element: &[u8; 32], share: &CandidateDecryption) -> (rest: Option<
    [u8; 32],
>)
    ensures
        match rest {
            Some(bytes) => element_without_share(element@, share@) == Some(bytes@),
            None => element_without_share(element@, share@) is None,
        },
{
    let element = Ristretto::deserialize_element(element)?;
    let share: elastic_elgamal::CandidateDecryption<Ristretto> =
        serde_json::from_str(&share.json).ok()?;
    let mut bytes = [0u8; 32];
    Ristretto::serialize_element(&(element - *share.into_unchecked().as_element()), &mut bytes);
    Some(bytes)
}

/// Calls `elastic_elgamal::DiscreteLogTable::new` for the values `0..=max` and
/// `get` on the decoded element. The result is named; as the table holds no
/// other values, a logarithm that is found is at most `max`.
#[verifier::external_body]
pub(crate) fn discrete_log_of(element: &[u8; 32], max: u64) -> (log: Option<u64>)
    ensures
        log == discrete_log(element@, max),
        log matches Some(value) ==> value <= max,
{
    let element = Ristretto::deserialize_element(element)?;
    elastic_elgamal::DiscreteLogTable::<Ristretto>::new(0..=max).get(&element)
}

} // verus!

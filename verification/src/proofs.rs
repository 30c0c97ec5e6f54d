//! Zero-knowledge proofs that accompany the steps of a poll: possession of a
//! secret key, validity of an encrypted choice, and correctness of a
//! decryption share.
//!
//! The proofs are created and verified by `elastic-elgamal`. Here a proof is
//! kept as the JSON text that the crate writes for it, and the context that a
//! proof is bound to is kept as the list of messages from which a `merlin`
//! transcript is started for each call.

use crate::encoding::json_array_tail;
use crate::group::{
    ciphertext_decodes, public_key_decodes, texts, CandidateDecryption, Ciphertext, Keypair,
    PublicKey,
};
use elastic_elgamal::group::Ristretto;
use vstd::prelude::*;
use vstd::string::*;
use vstd::utf8::encode_utf8;

verus! {

/// One message of a [`Transcript`], with the label under which it is appended.
#[derive(Debug, Clone)]
pub struct TranscriptMessage {
    pub label: &'static str,
    pub data: Vec<u8>,
}

/// The context that a proof is bound to: a domain label and labelled messages,
/// in the order in which they were appended.
#[derive(Debug, Clone)]
pub struct Transcript {
    pub domain: &'static str,
    pub messages: Vec<TranscriptMessage>,
}

/// A [`Transcript`] in specifications.
pub struct TranscriptView {
    pub domain: Seq<char>,
    pub messages: Seq<(Seq<char>, Seq<u8>)>,
}

impl View for Transcript {
    type V = TranscriptView;

    open spec fn view(&self) -> TranscriptView {
        TranscriptView {
            domain: self.domain@,
            messages: Seq::new(
                self.messages.len() as nat,
                |i: int| (self.messages[i].label@, self.messages[i].data@),
            ),
        }
    }
}

impl TranscriptView {
    pub open spec fn new(domain: Seq<char>) -> TranscriptView {
        TranscriptView { domain, messages: Seq::empty() }
    }

    pub open spec fn append_message(self, label: Seq<char>, data: Seq<u8>) -> TranscriptView {
        TranscriptView { domain: self.domain, messages: self.messages.push((label, data)) }
    }

    pub open spec fn append_u64(self, label: Seq<char>, x: u64) -> TranscriptView {
        self.append_message(label, vstd::bytes::spec_u64_to_le_bytes(x))
    }
}

impl Transcript {
    /// Longest message that a transcript takes: its length is written in 32
    /// bits.
    pub const MAX_MESSAGE_LEN: usize = 0xffff_ffff;

    /// Neither the domain label nor a message is longer than
    /// [`Transcript::MAX_MESSAGE_LEN`].
    pub open spec fn well_formed(&self) -> bool {
        &&& encode_utf8(self.domain@).len() <= Transcript::MAX_MESSAGE_LEN
        &&& forall|i: int|
            0 <= i < self.messages.len() ==> (#[trigger] self.messages[i]).data.len()
                <= Transcript::MAX_MESSAGE_LEN
    }

    /// Starts a transcript under the domain label `domain`.
    pub fn new(domain: &'static str) -> (transcript: Transcript)
        requires
            encode_utf8(domain@).len() <= Transcript::MAX_MESSAGE_LEN,
        ensures
            transcript@ == TranscriptView::new(domain@),
            transcript.well_formed(),
    {
        let transcript = Transcript { domain, messages: Vec::new() };
        assert(transcript@.messages =~= Seq::empty());
        transcript
    }

    /// Appends `message` under `label`.
    pub fn append_message(&mut self, label: &'static str, message: &[u8])
        requires
            old(self).well_formed(),
            message.len() <= Transcript::MAX_MESSAGE_LEN,
        ensures
            final(self)@ == old(self)@.append_message(label@, message@),
            final(self).well_formed(),
    {
        let data = vstd::slice::slice_to_vec(message);
        self.messages.push(TranscriptMessage { label, data });
        assert(self@.messages =~= old(self)@.messages.push((label@, message@)));
    }

    /// Appends the 8 bytes of `x`, least significant first, under `label`.
    pub fn append_u64(&mut self, label: &'static str, x: u64)
        requires
            old(self).well_formed(),
        ensures
            final(self)@ == old(self)@.append_u64(label@, x),
            final(self).well_formed(),
    {
        let bytes = vstd::bytes::u64_to_le_bytes(x);
        proof {
            vstd::bytes::lemma_auto_spec_u64_to_from_le_bytes();
        }
        self.append_message(label, bytes.as_slice());
    }
}

/// Why a proof was not accepted, in the words of the check that refused it.
#[derive(Debug, Clone, PartialEq, Eq)]
pub struct VerificationError {
    pub message: String,
}

impl VerificationError {
    pub fn to_string(&self) -> (message: String)
        ensures
            message@ == self.message@,
    {
        self.message.clone()
    }
}

/// Why an encrypted choice was not accepted, in the words of the check that
/// refused it.
#[derive(Debug, Clone, PartialEq, Eq)]
pub struct ChoiceVerificationError {
    pub message: String,
}

impl ChoiceVerificationError {
    pub fn to_string(&self) -> (message: String)
        ensures
            message@ == self.message@,
    {
        self.message.clone()
    }
}

/// Proof of possession of the secret key for a public key, bound to a
/// transcript. It is kept as JSON text: an object with the fields `challenge`
/// and `responses`.
#[derive(Debug, Clone, PartialEq, Eq)]
pub struct ProofOfPossession {
    pub json: String,
}

impl View for ProofOfPossession {
    type V = Seq<char>;

    open spec fn view(&self) -> Seq<char> {
        self.json@
    }
}

/// Proof that two group elements have the same discrete logarithm with respect
/// to two bases. It is kept as JSON text: an object with the fields
/// `challenge` and `response`.
#[derive(Debug, Clone, PartialEq, Eq)]
pub struct LogEqualityProof {
    pub json: String,
}

impl View for LogEqualityProof {
    type V = Seq<char>;

    open spec fn view(&self) -> Seq<char> {
        self.json@
    }
}

/// Proof that each of several ciphertexts encrypts one of the values admitted
/// for it. It is kept as JSON text: an object with the fields
/// `common_challenge` and `ring_responses`.
#[derive(Debug, Clone, PartialEq, Eq)]
pub struct RingProof {
    pub json: String,
}

impl View for RingProof {
    type V = Seq<char>;

    open spec fn view(&self) -> Seq<char> {
        self.json@
    }
}

/// Encrypted choice among the options of a poll: one ciphertext for each
/// option, which encrypts 1 where the option is chosen and 0 where it is not,
/// with the proofs that this is so.
#[derive(Debug, Clone, PartialEq, Eq)]
pub struct EncryptedChoice {
    pub choices: Vec<Ciphertext>,
    /// Proof that each ciphertext encrypts 0 or 1.
    pub range_proof: RingProof,
    /// Proof that the ciphertexts sum up to an encryption of 1. Present in a
    /// choice of exactly one option, absent where any number may be chosen.
    pub sum_proof: Option<LogEqualityProof>,
}

/// An array of texts of at most `max` characters each is written with at
/// most `max + 1` characters for each text, and one more.
pub proof fn lemma_array_tail_len(items: Seq<Seq<char>>, from: int, max: nat)
    requires
        0 <= from <= items.len(),
        forall|j: int| from <= j < items.len() ==> (#[trigger] items[j]).len() <= max,
    ensures
        json_array_tail(items, from).len() <= (items.len() - from) * (max + 1) + 1,
    decreases items.len() - from,
{
    reveal_strlit("]");
    reveal_strlit(",");
    if from + 1 < items.len() {
        lemma_array_tail_len(items, from + 1, max);
        assert((items.len() - from) * (max + 1) == (items.len() - (from + 1)) * (max + 1) + (max
            + 1)) by (nonlinear_arith);
    } else if from + 1 == items.len() {
        assert((items.len() - from) * (max + 1) == max + 1) by (nonlinear_arith)
            requires
                items.len() - from == 1,
        ;
    } else {
        assert((items.len() - from) * (max + 1) == 0) by (nonlinear_arith)
            requires
                items.len() - from == 0,
        ;
    }
}

impl EncryptedChoice {
    pub open spec fn sum_proof_json(&self) -> Seq<char> {
        match self.sum_proof {
            Some(proof) => proof@,
            None => "null"@,
        }
    }

    /// The fields `choices`, `range_proof` and `sum_proof` of the JSON object
    /// for the choice, with the brace that closes the object.
    pub open spec fn fields_json(&self) -> Seq<char> {
        "\"choices\":["@ + json_array_tail(texts(self.choices@), 0) + ",\"range_proof\":"@
            + self.range_proof@ + ",\"sum_proof\":"@ + self.sum_proof_json() + "}"@
    }

    /// The JSON text of the choice, as `elastic-elgamal` writes and reads it.
    pub open spec fn json(&self) -> Seq<char> {
        "{"@ + self.fields_json()
    }

    /// Whether the texts of the choice are no longer than `elastic-elgamal`
    /// writes them. A group element or a scalar is written as a string of 43
    /// characters; a ciphertext is an object of two elements, 128 characters
    /// in all; a sum proof is an object of two scalars, 116 characters; a
    /// range proof is an object of a scalar and an array of two scalars for
    /// each ciphertext, 85 characters and 92 more for each ciphertext.
    pub open spec fn compact(&self) -> bool {
        &&& forall|j: int|
            0 <= j < self.choices.len() ==> (#[trigger] self.choices[j])@.len() <= 128
        &&& self.range_proof@.len() <= 85 + 92 * self.choices.len()
        &&& self.sum_proof matches Some(proof) ==> proof@.len() <= 116
    }

    /// The JSON fields of a compact choice take at most 242 characters and
    /// 221 more for each ciphertext.
    pub proof fn lemma_compact_fields_len(&self)
        requires
            self.compact(),
        ensures
            self.fields_json().len() <= 242 + 221 * self.choices.len(),
    {
        reveal_strlit("\"choices\":[");
        reveal_strlit(",\"range_proof\":");
        reveal_strlit(",\"sum_proof\":");
        reveal_strlit("null");
        reveal_strlit("}");
        let items = texts(self.choices@);
        assert forall|j: int| 0 <= j < items.len() implies (#[trigger] items[j]).len() <= 128 by {
            assert(items[j] == self.choices[j]@);
        }
        lemma_array_tail_len(items, 0, 128);
        let tail = json_array_tail(items, 0);
        assert(tail.len() <= 129 * self.choices.len() + 1) by {
            assert((items.len() - 0) * (128 + 1) == 129 * self.choices.len()) by (nonlinear_arith)
                requires
                    items.len() == self.choices.len(),
            ;
        }
        assert(self.sum_proof_json().len() <= 116);
        assert(self.fields_json().len() == 11 + tail.len() + 15 + self.range_proof@.len() + 13
            + self.sum_proof_json().len() + 1);
    }

    /// Appends [`EncryptedChoice::fields_json`] to `out`.
    pub fn append_fields(&self, out: &mut String)
        ensures
            final(out)@ == old(out)@ + self.fields_json(),
    {
        out.append("\"choices\":[");
        let ghost head = out@;
        let ghost items = texts(self.choices@);
        let mut i: usize = 0;
        while i < self.choices.len()
            invariant
                i <= self.choices.len(),
                items == texts(self.choices@),
                head + json_array_tail(items, 0) == out@ + json_array_tail(items, i as int),
            decreases self.choices.len() - i,
        {
            out.append(self.choices[i].json.as_str());
            if i + 1 < self.choices.len() {
                out.append(",");
            }
            i += 1;
        }
        out.append("]");
        out.append(",\"range_proof\":");
        out.append(self.range_proof.json.as_str());
        out.append(",\"sum_proof\":");
        match &self.sum_proof {
            Some(proof) => out.append(proof.json.as_str()),
            None => out.append("null"),
        }
        out.append("}");
    }

    /// Writes the JSON text of the choice.
    pub fn to_json(&self) -> (json: String)
        ensures
            json@ == self.json(),
    {
        let mut json = String::from_str("{");
        self.append_fields(&mut json);
        json
    }

    /// The number of ciphertexts, which in a valid choice is the number of
    /// options of the poll.
    pub fn len(&self) -> (len: usize)
        ensures
            len == self.choices.len(),
    {
        self.choices.len()
    }
}

/// Whether the encrypted choice with the JSON text `choice` is a valid choice
/// of exactly one of `options` options, encrypted for `receiver`: `Ok`, or the
/// reason for which the check refused it.
pub uninterp spec fn single_choice_outcome(
    choice: Seq<char>,
    receiver: Seq<u8>,
    options: usize,
) -> Result<(), ChoiceVerificationError>;

/// Whether the encrypted choice with the JSON text `choice` is a valid choice
/// of any number of `options` options, encrypted for `receiver`: `Ok`, or the
/// reason for which the check refused it.
pub uninterp spec fn multi_choice_outcome(
    choice: Seq<char>,
    receiver: Seq<u8>,
    options: usize,
) -> Result<(), ChoiceVerificationError>;

/// Whether `proof` shows possession of the secret key for `key` in the context
/// `transcript`: `Ok`, or the reason for which the check refused it.
pub uninterp spec fn possession_outcome(
    key: Seq<u8>,
    proof: Seq<char>,
    transcript: TranscriptView,
) -> Result<(), VerificationError>;

/// Whether `proof` shows, in the context `transcript`, that `share` is the
/// decryption share of `ciphertext` under the secret key for `key`: `Ok`, or
/// the reason for which the check refused it.
pub uninterp spec fn decryption_outcome(
    share: Seq<char>,
    ciphertext: Seq<char>,
    key: Seq<u8>,
    proof: Seq<char>,
    transcript: TranscriptView,
) -> Result<(), VerificationError>;

/// Starts a `merlin::Transcript` with the messages of `transcript`, decodes
/// the secret key with `serde_json::from_str` and calls
/// `elastic_elgamal::ProofOfPossession::new` with `rand_core::OsRng`. The proof
/// is random: nothing is claimed of what it holds. There is a proof exactly
/// where the secret key decodes, as neither making the proof nor writing it
/// can fail.
#[verifier::external_body]
pub(crate) fn prove_possession(keys: &Keypair, transcript: &Transcript) -> (proof: Option<
    ProofOfPossession,
>)
    requires
        transcript.well_formed(),
    ensures
        proof is Some <==> keys.readable(),
{
    let mut context = merlin::Transcript::new(transcript.domain.as_bytes());
    for message in &transcript.messages {
        context.append_message(message.label.as_bytes(), &message.data);
    }
    let keys: elastic_elgamal::Keypair<Ristretto> = serde_json::from_str(&keys.secret).ok()?;
    let proof = elastic_elgamal::ProofOfPossession::new(&[keys], &mut context, &mut rand_core::OsRng);
    Some(ProofOfPossession { json: serde_json::to_string(&proof).ok()? })
}

/// Starts a `merlin::Transcript` with the messages of `transcript`, decodes
/// the key and the proof and calls `elastic_elgamal::ProofOfPossession::verify`
/// for the one key. The result is named; an error carries the message of the
/// decoder or of the check that failed.
#[verifier::external_body]
pub(crate) fn check_possession(
    key: &PublicKey,
    proof: &ProofOfPossession,
    transcript: &Transcript,
) -> (outcome: Result<(), VerificationError>)
    requires
        transcript.well_formed(),
    ensures
        outcome == possession_outcome(key@, proof@, transcript@),
{
    let mut context = merlin::Transcript::new(transcript.domain.as_bytes());
    for message in &transcript.messages {
        context.append_message(message.label.as_bytes(), &message.data);
    }
    let mut check = || -> Result<(), Box<dyn std::error::Error>> {
        let key = elastic_elgamal::PublicKey::<Ristretto>::from_bytes(&key.bytes)?;
        let proof: elastic_elgamal::ProofOfPossession<Ristretto> =
            serde_json::from_str(&proof.json)?;
        Ok(proof.verify(core::iter::once(&key), &mut context)?)
    };
    check().map_err(|err| VerificationError { message: err.to_string() })
}

/// Starts a `merlin::Transcript` with the messages of `transcript`, decodes
/// the ciphertext and the secret key and calls
/// `elastic_elgamal::VerifiableDecryption::new` with `rand_core::OsRng`. The
/// proof is random: nothing is claimed of what the result holds. There is a
/// result exactly where the ciphertext and the secret key decode, as neither
/// making the share nor writing it can fail.
#[verifier::external_body]
pub(crate) fn prove_decryption(
    ciphertext: &Ciphertext,
    keys: &Keypair,
    transcript: &Transcript,
) -> (share: Option<(CandidateDecryption, LogEqualityProof)>)
    requires
        transcript.well_formed(),
    ensures
        share is Some <==> (ciphertext_decodes(ciphertext@) && keys.readable()),
{
    let mut context = merlin::Transcript::new(transcript.domain.as_bytes());
    for message in &transcript.messages {
        context.append_message(message.label.as_bytes(), &message.data);
    }
    let ciphertext = serde_json::from_str(&ciphertext.json).ok()?;
    let keys: elastic_elgamal::Keypair<Ristretto> = serde_json::from_str(&keys.secret).ok()?;
    let mut rng = rand_core::OsRng;
    let (share, proof) =
        elastic_elgamal::VerifiableDecryption::new(ciphertext, &keys, &mut context, &mut rng);
    let share = CandidateDecryption { json: serde_json::to_string(&share).ok()? };
    Some((share, LogEqualityProof { json: serde_json::to_string(&proof).ok()? }))
}

/// Starts a `merlin::Transcript` with the messages of `transcript`, decodes
/// the four values and calls `elastic_elgamal::CandidateDecryption::verify`.
/// The result is named; an error carries the message of the decoder or of the
/// check that failed.
#[verifier::external_body]
pub(crate) fn check_decryption(
    share: &CandidateDecryption,
    ciphertext: &Ciphertext,
    key: &PublicKey,
    proof: &LogEqualityProof,
    transcript: &Transcript,
) -> (outcome: Result<(), VerificationError>)
    requires
        transcript.well_formed(),
    ensures
        outcome == decryption_outcome(share@, ciphertext@, key@, proof@, transcript@),
{
    let mut context = merlin::Transcript::new(transcript.domain.as_bytes());
    for message in &transcript.messages {
        context.append_message(message.label.as_bytes(), &message.data);
    }
    let mut check = || -> Result<(), Box<dyn std::error::Error>> {
        let share: elastic_elgamal::CandidateDecryption<Ristretto> =
            serde_json::from_str(&share.json)?;
        let ciphertext = serde_json::from_str(&ciphertext.json)?;
        let key = elastic_elgamal::PublicKey::from_bytes(&key.bytes)?;
        let proof = serde_json::from_str(&proof.json)?;
        share.verify(ciphertext, &key, &proof, &mut context)?;
        Ok(())
    };
    check().map_err(|err| VerificationError { message: err.to_string() })
}

/// Decodes the receiver's key, calls `elastic_elgamal::app::ChoiceParams::single`
/// and `EncryptedChoice::single` with `rand_core::OsRng`, and encodes the parts
/// of the result. The two calls panic where there is no option or `choice` is
/// not one of them. The encryption is random; what is claimed is the number of
/// ciphertexts, one for each option, that the sum proof is there, and the
/// lengths of the texts ([`EncryptedChoice::compact`]): each group element and
/// scalar is written as the Base64 text of its 32 bytes, and the range proof
/// holds two responses for each option. There is a result exactly where the
/// receiver's key decodes.
#[verifier::external_body]
pub(crate) fn encrypt_single_choice(receiver: &PublicKey, options: usize, choice: usize) -> (encrypted:
    Option<EncryptedChoice>)
    requires
        choice < options,
    ensures
        encrypted is Some <==> public_key_decodes(receiver@),
        encrypted matches Some(encrypted) ==> encrypted.choices.len() == options
            && encrypted.sum_proof is Some,
        encrypted matches Some(encrypted) ==> encrypted.compact(),
{
    let receiver = elastic_elgamal::PublicKey::<Ristretto>::from_bytes(&receiver.bytes).ok()?;
    let params = elastic_elgamal::app::ChoiceParams::single(receiver, options);
    let encrypted =
        elastic_elgamal::app::EncryptedChoice::single(&params, choice, &mut rand_core::OsRng);
    let choices = encrypted.choices_unchecked().iter();
    Some(EncryptedChoice {
        choices: choices.map(|c| Ciphertext { json: serde_json::to_string(c).unwrap() }).collect(),
        range_proof: RingProof { json: serde_json::to_string(encrypted.range_proof()).ok()? },
        sum_proof: Some(LogEqualityProof { json: serde_json::to_string(encrypted.sum_proof()).ok()? }),
    })
}

/// Decodes the receiver's key, calls `elastic_elgamal::app::ChoiceParams::multi`
/// and `EncryptedChoice::new` with `rand_core::OsRng`, and encodes the parts of
/// the result. The two calls panic where there is no option or `choices` has not
/// one entry for each. The encryption is random; what is claimed is the number
/// of ciphertexts, one for each option, that there is no sum proof, and the
/// lengths of the texts ([`EncryptedChoice::compact`]), as for a choice of one
/// option. There is a result exactly where the receiver's key decodes.
#[verifier::external_body]
pub(crate) fn encrypt_multi_choice(receiver: &PublicKey, options: usize, choices: &[bool]) -> (encrypted:
    Option<EncryptedChoice>)
    requires
        0 < options,
        choices.len() == options,
    ensures
        encrypted is Some <==> public_key_decodes(receiver@),
        encrypted matches Some(encrypted) ==> encrypted.choices.len() == options
            && encrypted.sum_proof is None,
        encrypted matches Some(encrypted) ==> encrypted.compact(),
{
    let receiver = elastic_elgamal::PublicKey::<Ristretto>::from_bytes(&receiver.bytes).ok()?;
    let params = elastic_elgamal::app::ChoiceParams::multi(receiver, options);
    let encrypted =
        elastic_elgamal::app::EncryptedChoice::new(&params, choices, &mut rand_core::OsRng);
    let choices = encrypted.choices_unchecked().iter();
    Some(EncryptedChoice {
        choices: choices.map(|c| Ciphertext { json: serde_json::to_string(c).unwrap() }).collect(),
        range_proof: RingProof { json: serde_json::to_string(encrypted.range_proof()).ok()? },
        sum_proof: None,
    })
}

/// Decodes the choice with `serde_json::from_str` and the receiver's key, calls
/// `elastic_elgamal::app::ChoiceParams::single`, which panics where there is no
/// option, and `EncryptedChoice::verify`. The result is named; an error carries
/// the message of the decoder or of the check that failed.
#[verifier::external_body]
pub(crate) fn check_single_choice(choice: &str, receiver: &PublicKey, options: usize) -> (outcome:
    Result<(), ChoiceVerificationError>)
    requires
        0 < options,
    ensures
        outcome == single_choice_outcome(choice@, receiver@, options),
{
    let check = || -> Result<(), Box<dyn std::error::Error>> {
        let choice: elastic_elgamal::app::EncryptedChoice<Ristretto, _> =
            serde_json::from_str(choice)?;
        let receiver = elastic_elgamal::PublicKey::from_bytes(&receiver.bytes)?;
        let params = elastic_elgamal::app::ChoiceParams::single(receiver, options);
        choice.verify(&params)?;
        Ok(())
    };
    check().map_err(|err| ChoiceVerificationError { message: err.to_string() })
}

/// Decodes the choice with `serde_json::from_str` and the receiver's key, calls
/// `elastic_elgamal::app::ChoiceParams::multi`, which panics where there is no
/// option, and `EncryptedChoice::verify`. The result is named; an error carries
/// the message of the decoder or of the check that failed.
#[verifier::external_body]
pub(crate) fn check_multi_choice(choice: &str, receiver: &PublicKey, options: usize) -> (outcome:
    Result<(), ChoiceVerificationError>)
    requires
        0 < options,
    ensures
        outcome == multi_choice_outcome(choice@, receiver@, options),
{
    let check = || -> Result<(), Box<dyn std::error::Error>> {
        let choice: elastic_elgamal::app::EncryptedChoice<Ristretto, _> =
            serde_json::from_str(choice)?;
        let receiver = elastic_elgamal::PublicKey::from_bytes(&receiver.bytes)?;
        let params = elastic_elgamal::app::ChoiceParams::multi(receiver, options);
        choice.verify(&params)?;
        Ok(())
    };
    check().map_err(|err| ChoiceVerificationError { message: err.to_string() })
}

} // verus!

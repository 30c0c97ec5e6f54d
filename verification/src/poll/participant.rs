//! Participants of a poll and what they submit: applications, votes and
//! tallier shares.

use crate::encoding::{base64url, base64url_encode, sha256, sha256_digest};
use crate::group::{
    ciphertext_decodes, public_key_decodes, texts, CandidateDecryption, Ciphertext, Keypair,
    PublicKey,
};
use crate::poll::tally::cumulative_choices;
use crate::poll::{PollId, PollSpec, PollState, PollStateView, PollType, MAX_OPTIONS};
use crate::proofs::{
    check_decryption, check_multi_choice, check_possession, check_single_choice,
    decryption_outcome, encrypt_multi_choice, encrypt_single_choice, multi_choice_outcome,
    possession_outcome, prove_decryption, prove_possession, single_choice_outcome,
    ChoiceVerificationError, EncryptedChoice, LogEqualityProof, ProofOfPossession, Transcript,
    TranscriptView, VerificationError,
};
use vstd::prelude::*;
use vstd::string::*;
use vstd::utf8::encode_utf8;

verus! {

/// Application for participation in a poll: a public key and the proof that
/// the applicant holds its secret key, bound to the poll.
#[derive(Debug, Clone, PartialEq, Eq)]
pub struct ParticipantApplication {
    pub public_key: PublicKey,
    pub participation_consent: ProofOfPossession,
}

impl ParticipantApplication {
    /// The context that the consent to take part in the poll `poll_id` is
    /// bound to.
    pub open spec fn consent_transcript(poll_id: PollId) -> TranscriptView {
        TranscriptView::new("participation_consent"@).append_message("poll_id"@, poll_id@)
    }

    fn create_transcript(poll_id: &PollId) -> (transcript: Transcript)
        ensures
            transcript@ == Self::consent_transcript(*poll_id),
            transcript.well_formed(),
    {
        proof {
            reveal_strlit("participation_consent");
            crate::encoding::lemma_encode_utf8_len("participation_consent"@);
        }
        let mut transcript = Transcript::new("participation_consent");
        transcript.append_message("poll_id", poll_id.0.as_slice());
        transcript
    }

    /// Applies with `keypair` for the poll `poll_id`: the application is under
    /// the public key of the pair, with a proof of possession that is made with
    /// fresh randomness. There is an application exactly where the secret key
    /// can be read.
    pub fn new(keypair: &Keypair, poll_id: &PollId) -> (application: Option<Self>)
        ensures
            application is Some <==> keypair.readable(),
            application matches Some(application) ==> application.public_key
                == keypair.public_key(),
    {
        let transcript = Self::create_transcript(poll_id);
        match prove_possession(keypair, &transcript) {
            Some(participation_consent) => Some(
                ParticipantApplication { public_key: *keypair.public(), participation_consent },
            ),
            None => None,
        }
    }

    /// Checks the proof of possession against the applicant's key and the
    /// poll `poll_id`.
    pub fn validate(&self, poll_id: &PollId) -> (outcome: Result<(), VerificationError>)
        ensures
            outcome == possession_outcome(
                self.public_key@,
                self.participation_consent@,
                Self::consent_transcript(*poll_id),
            ),
    {
        let transcript = Self::create_transcript(poll_id);
        check_possession(&self.public_key, &self.participation_consent, &transcript)
    }
}

/// Plaintext voter's choice.
#[derive(Debug, Clone, PartialEq, Eq)]
pub enum VoteChoice {
    SingleChoice(usize),
    MultiChoice(Vec<bool>),
}

impl VoteChoice {
    /// Whether the choice can be made in a poll with `options` options: it
    /// names one of them, or says of each whether it is chosen.
    pub open spec fn fits(&self, options: nat) -> bool {
        match self {
            VoteChoice::SingleChoice(choice) => *choice < options,
            VoteChoice::MultiChoice(choices) => choices.len() == options,
        }
    }

    /// Whether the option `option_idx` is chosen.
    pub open spec fn selected(&self, option_idx: int) -> bool {
        match self {
            VoteChoice::SingleChoice(choice) => *choice == option_idx,
            VoteChoice::MultiChoice(choices) => choices[option_idx],
        }
    }

    pub open spec fn spec_poll_type(&self) -> PollType {
        match self {
            VoteChoice::SingleChoice(_) => PollType::SingleChoice,
            VoteChoice::MultiChoice(_) => PollType::MultiChoice,
        }
    }

    /// The choice with which a voter starts: the first option in a
    /// single-choice poll, no option in a multi-choice poll.
    pub fn default(spec: &PollSpec) -> (choice: Self)
        ensures
            choice.spec_poll_type() == spec.poll_type,
            spec.poll_type == PollType::SingleChoice ==> choice == VoteChoice::SingleChoice(0),
            choice matches VoteChoice::MultiChoice(choices) ==> choices.len()
                == spec.options.len() && forall|i: int|
                0 <= i < choices.len() ==> !choices[i],
    {
        match spec.poll_type {
            PollType::SingleChoice => VoteChoice::SingleChoice(0),
            PollType::MultiChoice => VoteChoice::MultiChoice(vec![false; spec.options.len()]),
        }
    }

    pub fn is_selected(&self, option_idx: usize) -> (selected: bool)
        requires
            self matches VoteChoice::MultiChoice(choices) ==> option_idx < choices.len(),
        ensures
            selected == self.selected(option_idx as int),
    {
        match self {
            VoteChoice::SingleChoice(choice) => *choice == option_idx,
            VoteChoice::MultiChoice(choices) => choices[option_idx],
        }
    }

    /// Chooses the option `option_idx`, or takes the choice of it back. In a
    /// single choice the option replaces the one chosen before, and nothing is
    /// taken back.
    pub fn select(&mut self, option_idx: usize, select: bool)
        requires
            *old(self) matches VoteChoice::MultiChoice(choices) ==> option_idx < choices.len(),
        ensures
            match *old(self) {
                VoteChoice::SingleChoice(choice) => *final(self) == VoteChoice::SingleChoice(
                    if select {
                        option_idx
                    } else {
                        choice
                    },
                ),
                VoteChoice::MultiChoice(choices) => *final(self) matches VoteChoice::MultiChoice(
                    updated,
                ) && updated@ == choices@.update(option_idx as int, select),
            },
    {
        match self {
            VoteChoice::SingleChoice(choice) => {
                if select {
                    *choice = option_idx;
                }
            },
            VoteChoice::MultiChoice(choices) => {
                choices[option_idx] = select;
            },
        }
    }

    pub fn poll_type(&self) -> (poll_type: PollType)
        ensures
            poll_type == self.spec_poll_type(),
    {
        match self {
            VoteChoice::SingleChoice(_) => PollType::SingleChoice,
            VoteChoice::MultiChoice(_) => PollType::MultiChoice,
        }
    }
}

/// Encrypted voter's choice, of the kind that the poll asks for.
#[derive(Debug, Clone, PartialEq, Eq)]
pub enum EncryptedVoteChoice {
    SingleChoice(EncryptedChoice),
    MultiChoice(EncryptedChoice),
}

impl EncryptedVoteChoice {
    pub open spec fn inner(&self) -> EncryptedChoice {
        match self {
            EncryptedVoteChoice::SingleChoice(choice) => *choice,
            EncryptedVoteChoice::MultiChoice(choice) => *choice,
        }
    }

    pub open spec fn spec_poll_type(&self) -> PollType {
        match self {
            EncryptedVoteChoice::SingleChoice(_) => PollType::SingleChoice,
            EncryptedVoteChoice::MultiChoice(_) => PollType::MultiChoice,
        }
    }

    /// The JSON text of the choice: the object for the encrypted choice, with
    /// the kind of choice as the first field, `type`.
    pub open spec fn json(&self) -> Seq<char> {
        "{\"type\":\""@ + self.spec_poll_type().tag_text() + "\","@ + self.inner().fields_json()
    }

    /// Whether the choice can be signed: its JSON text is no longer than a
    /// message of a transcript may be.
    pub open spec fn signable(&self) -> bool {
        encode_utf8(self.json()).len() <= Transcript::MAX_MESSAGE_LEN
    }

    /// A compact choice among at most [`MAX_OPTIONS`] options can be signed.
    pub proof fn lemma_compact_is_signable(&self)
        requires
            self.inner().compact(),
            self.inner().choices.len() <= MAX_OPTIONS,
        ensures
            self.signable(),
    {
        reveal_strlit("{\"type\":\"");
        reveal_strlit("single_choice");
        reveal_strlit("multi_choice");
        reveal_strlit("\",");
        self.inner().lemma_compact_fields_len();
        assert(self.json().len() == 9 + self.spec_poll_type().tag_text().len() + 2
            + self.inner().fields_json().len());
        crate::encoding::lemma_encode_utf8_len(self.json());
    }

    /// Whether the choice passes the check of its kind, as a choice among
    /// `options` options that is encrypted for `receiver`.
    pub open spec fn outcome(&self, receiver: PublicKey, options: usize) -> Result<
        (),
        ChoiceVerificationError,
    > {
        match self {
            EncryptedVoteChoice::SingleChoice(choice) => single_choice_outcome(
                choice.json(),
                receiver@,
                options,
            ),
            EncryptedVoteChoice::MultiChoice(choice) => multi_choice_outcome(
                choice.json(),
                receiver@,
                options,
            ),
        }
    }

    pub fn poll_type(&self) -> (poll_type: PollType)
        ensures
            poll_type == self.spec_poll_type(),
    {
        match self {
            EncryptedVoteChoice::SingleChoice(_) => PollType::SingleChoice,
            EncryptedVoteChoice::MultiChoice(_) => PollType::MultiChoice,
        }
    }

    /// The ciphertexts of the choice, one for each option, whether or not the
    /// choice is valid.
    pub fn choices_unchecked(&self) -> (choices: &Vec<Ciphertext>)
        ensures
            *choices == self.inner().choices,
    {
        match self {
            EncryptedVoteChoice::SingleChoice(choice) => &choice.choices,
            EncryptedVoteChoice::MultiChoice(choice) => &choice.choices,
        }
    }

    /// Writes the JSON text of the choice.
    pub fn to_json(&self) -> (json: String)
        ensures
            json@ == self.json(),
    {
        let mut json = String::from_str("{\"type\":\"");
        json.append(self.poll_type().as_str());
        json.append("\",");
        match self {
            EncryptedVoteChoice::SingleChoice(choice) => choice.append_fields(&mut json),
            EncryptedVoteChoice::MultiChoice(choice) => choice.append_fields(&mut json),
        }
        json
    }

    pub fn is_signable(&self) -> (signable: bool)
        ensures
            signable == self.signable(),
    {
        self.to_json().as_str().as_bytes().len() <= Transcript::MAX_MESSAGE_LEN
    }

    /// Checks the proofs of the choice with the check of its kind.
    pub fn verify(&self, receiver: &PublicKey, options: usize) -> (outcome: Result<
        (),
        ChoiceVerificationError,
    >)
        requires
            0 < options,
        ensures
            outcome == self.outcome(*receiver, options),
    {
        match self {
            EncryptedVoteChoice::SingleChoice(choice) => check_single_choice(
                choice.to_json().as_str(),
                receiver,
                options,
            ),
            EncryptedVoteChoice::MultiChoice(choice) => check_multi_choice(
                choice.to_json().as_str(),
                receiver,
                options,
            ),
        }
    }
}

/// Vote: an encrypted choice, the voter's key, and the voter's signature over
/// the poll and the choice.
#[derive(Debug, Clone, PartialEq, Eq)]
pub struct Vote {
    pub choice: EncryptedVoteChoice,
    pub public_key: PublicKey,
    pub signature: ProofOfPossession,
}

/// Why a vote was not accepted.
#[derive(Debug, Clone, PartialEq, Eq)]
pub enum VoteError {
    IneligibleVoter,
    ChoiceType { expected: PollType, actual: PollType },
    Signature(VerificationError),
    Choice(ChoiceVerificationError),
}

impl VoteError {
    pub open spec fn text(&self) -> Seq<char> {
        match self {
            VoteError::IneligibleVoter => "voter is not eligible"@,
            VoteError::ChoiceType { expected, actual } =>
                "unexpected type of submitted choice: expected "@ + expected.human_text()
                    + ", got "@ + actual.human_text(),
            VoteError::Signature(err) => "cannot verify voter's signature: "@ + err.message@,
            VoteError::Choice(err) => "cannot verify choice: "@ + err.message@,
        }
    }

    pub fn to_string(&self) -> (text: String)
        ensures
            text@ == self.text(),
    {
        match self {
            VoteError::IneligibleVoter => String::from_str("voter is not eligible"),
            VoteError::ChoiceType { expected, actual } => {
                let mut text = String::from_str("unexpected type of submitted choice: expected ");
                text.append(expected.as_human_string());
                text.append(", got ");
                text.append(actual.as_human_string());
                text
            },
            VoteError::Signature(err) => {
                let mut text = String::from_str("cannot verify voter's signature: ");
                text.append(err.message.as_str());
                text
            },
            VoteError::Choice(err) => {
                let mut text = String::from_str("cannot verify choice: ");
                text.append(err.message.as_str());
                text
            },
        }
    }

    pub fn ensure_choice_type(expected: PollType, actual: PollType) -> (outcome: Result<(), Self>)
        ensures
            outcome == (if expected == actual {
                Ok::<(), VoteError>(())
            } else {
                Err::<(), VoteError>(VoteError::ChoiceType { expected, actual })
            }),
    {
        if expected == actual {
            Ok(())
        } else {
            Err(VoteError::ChoiceType { expected, actual })
        }
    }
}

impl Vote {
    /// The context that the signature under `choice` in the poll `poll_id` is
    /// bound to: the poll and the JSON text of the choice.
    pub open spec fn signature_transcript(
        poll_id: PollId,
        choice: EncryptedVoteChoice,
    ) -> TranscriptView {
        TranscriptView::new("vote"@).append_message("poll_id"@, poll_id@).append_message(
            "choice"@,
            encode_utf8(choice.json()),
        )
    }

    /// Whether the signature of the vote is valid in the poll `poll_id`.
    pub open spec fn signature_outcome(&self, poll_id: PollId) -> Result<(), VerificationError> {
        possession_outcome(
            self.public_key@,
            self.signature@,
            Self::signature_transcript(poll_id, self.choice),
        )
    }

    fn create_transcript(poll_id: &PollId, choice: &EncryptedVoteChoice) -> (transcript:
        Transcript)
        requires
            choice.signable(),
        ensures
            transcript@ == Self::signature_transcript(*poll_id, *choice),
            transcript.well_formed(),
    {
        let serialized_choice = choice.to_json();
        proof {
            reveal_strlit("vote");
            crate::encoding::lemma_encode_utf8_len("vote"@);
        }
        let mut transcript = Transcript::new("vote");
        transcript.append_message("poll_id", poll_id.0.as_slice());
        transcript.append_message("choice", serialized_choice.as_str().as_bytes());
        transcript
    }

    /// Signs `choice` with `keypair` for the poll `poll_id`: the vote holds the
    /// choice under the public key of the pair, with a signature that is made
    /// with fresh randomness. There is a vote exactly where the choice can be
    /// signed and the secret key can be read.
    pub fn sign(keypair: &Keypair, poll_id: &PollId, choice: EncryptedVoteChoice) -> (vote: Option<
        Self,
    >)
        ensures
            vote is Some <==> choice.signable() && keypair.readable(),
            vote matches Some(vote) ==> vote.choice == choice && vote.public_key
                == keypair.public_key(),
    {
        if !choice.is_signable() {
            return None;
        }
        let transcript = Self::create_transcript(poll_id, &choice);
        match prove_possession(keypair, &transcript) {
            Some(signature) => Some(Vote { choice, public_key: *keypair.public(), signature }),
            None => None,
        }
    }

    /// Checks the signature of the vote in the poll `poll_id`.
    pub fn verify_signature(&self, poll_id: &PollId) -> (outcome: Result<(), VerificationError>)
        requires
            self.choice.signable(),
        ensures
            outcome == self.signature_outcome(*poll_id),
    {
        let transcript = Self::create_transcript(poll_id, &self.choice);
        check_possession(&self.public_key, &self.signature, &transcript)
    }

    /// Encrypts `choice` for the shared key of `poll` and signs it with
    /// `keypair`, as [`Vote::sign`] does. Encryption and signature are made
    /// with fresh randomness. There is a vote exactly where the shared key
    /// decodes and the secret key can be read: the encrypted choice of a poll
    /// is never too long to be signed.
    pub fn new(keypair: &Keypair, poll_id: &PollId, poll: &PollState, choice: &VoteChoice) -> (vote:
        Option<Self>)
        requires
            poll@.well_formed(),
            poll@.shared_key is Some,
            choice.fits(poll@.spec.options@.len()),
        ensures
            vote is Some <==> public_key_decodes(poll@.shared_key->0@) && keypair.readable(),
            vote matches Some(vote) ==> {
                &&& vote.public_key == keypair.public_key()
                &&& vote.choice.spec_poll_type() == choice.spec_poll_type()
                &&& vote.choice.inner().choices.len() == poll@.spec.options.len()
                &&& choice is SingleChoice ==> vote.choice.inner().sum_proof is Some
                &&& choice is MultiChoice ==> vote.choice.inner().sum_proof is None
                &&& vote.choice.signable()
            },
    {
        let shared_key = poll.finalized_shared_key();
        let options_count = poll.spec().options.len();
        let choice = match choice {
            VoteChoice::SingleChoice(choice) => {
                match encrypt_single_choice(shared_key, options_count, *choice) {
                    Some(encrypted) => EncryptedVoteChoice::SingleChoice(encrypted),
                    None => {
                        return None;
                    },
                }
            },
            VoteChoice::MultiChoice(choices) => {
                match encrypt_multi_choice(shared_key, options_count, choices.as_slice()) {
                    Some(encrypted) => EncryptedVoteChoice::MultiChoice(encrypted),
                    None => {
                        return None;
                    },
                }
            },
        };
        proof {
            choice.lemma_compact_is_signable();
        }
        Self::sign(keypair, poll_id, choice)
    }

    /// What [`Vote::verify`] makes of the vote in the poll `poll` with the ID
    /// `poll_id`.
    pub open spec fn verified(&self, poll_id: PollId, poll: PollStateView) -> Result<(), VoteError>
        recommends
            poll.shared_key is Some,
    {
        Self::verdict_of(
            poll.has_participant(self.public_key),
            self.signature_outcome(poll_id),
            poll.spec.poll_type,
            self.choice.spec_poll_type(),
            self.choice.outcome(poll.shared_key->0, poll.spec.options.len() as usize),
        )
    }

    /// Checks the vote against the poll `poll` with the ID `poll_id`: that the
    /// voter is a participant, that the signature is the voter's, and that the
    /// choice is a valid choice of the kind that the poll asks for.
    pub fn verify(&self, poll_id: &PollId, poll: &PollState) -> (outcome: Result<(), VoteError>)
        requires
            poll@.well_formed(),
            poll@.shared_key is Some,
            self.choice.signable(),
        ensures
            outcome == self.verified(*poll_id, poll@),
            !poll@.has_participant(self.public_key) ==> outcome == Err::<(), VoteError>(
                VoteError::IneligibleVoter,
            ),
    {
        // A check is made only once the checks before it have passed: the
        // verdict does not depend on what comes after the first failure.
        let eligible = poll.has_participant(&self.public_key);
        let signature = if eligible {
            self.verify_signature(poll_id)
        } else {
            Ok(())
        };
        let expected = poll.spec().poll_type;
        let actual = self.choice.poll_type();
        let choice = if eligible && signature.is_ok() && expected == actual {
            self.choice.verify(poll.finalized_shared_key(), poll.spec().options.len())
        } else {
            Ok(())
        };
        Self::verdict(eligible, signature, expected, actual, choice)
    }

    /// What a vote is judged to be, given the outcome of each check. The
    /// checks count in this order: the voter is a participant; the signature is
    /// valid; the choice is of the kind that the poll asks for; the choice is
    /// valid. The first that fails gives the error, whatever the later ones
    /// would give.
    pub open spec fn verdict_of(
        eligible: bool,
        signature: Result<(), VerificationError>,
        expected: PollType,
        actual: PollType,
        choice: Result<(), ChoiceVerificationError>,
    ) -> Result<(), VoteError> {
        if !eligible {
            Err(VoteError::IneligibleVoter)
        } else {
            match signature {
                Err(err) => Err(VoteError::Signature(err)),
                Ok(_) => if expected != actual {
                    Err(VoteError::ChoiceType { expected, actual })
                } else {
                    match choice {
                        Err(err) => Err(VoteError::Choice(err)),
                        Ok(_) => Ok(()),
                    }
                },
            }
        }
    }

    /// Judges a vote by the outcome of each check: see [`Vote::verdict_of`].
    pub fn verdict(
        eligible: bool,
        signature: Result<(), VerificationError>,
        expected: PollType,
        actual: PollType,
        choice: Result<(), ChoiceVerificationError>,
    ) -> (verdict: Result<(), VoteError>)
        ensures
            verdict == Self::verdict_of(eligible, signature, expected, actual, choice),
    {
        if !eligible {
            return Err(VoteError::IneligibleVoter);
        }
        match signature {
            Err(err) => Err(VoteError::Signature(err)),
            Ok(_) => {
                match VoteError::ensure_choice_type(expected, actual) {
                    Err(err) => Err(err),
                    Ok(_) => match choice {
                        Err(err) => Err(VoteError::Choice(err)),
                        Ok(_) => Ok(()),
                    },
                }
            },
        }
    }
}

/// Vote as a poll holds it, with the hash by which participants compare the
/// votes that they hold and the time at which it was submitted.
#[derive(Debug, Clone, PartialEq, Eq)]
pub struct SubmittedVote {
    pub inner: Vote,
    /// Hash of the JSON text of the vote's choice, as Base64 text.
    pub hash: String,
    /// Unix timestamp (in milliseconds).
    pub submitted_at: u64,
}

impl SubmittedVote {
    /// The hash under which the choice `choice` is compared.
    pub open spec fn hash_of(choice: EncryptedVoteChoice) -> Seq<char> {
        base64url(sha256_digest(encode_utf8(choice.json())))
    }

    /// Takes `vote` in as submitted at `submitted_at`.
    pub fn new(vote: Vote, submitted_at: u64) -> (submitted: Self)
        ensures
            submitted.inner == vote,
            submitted.hash@ == Self::hash_of(vote.choice),
            submitted.submitted_at == submitted_at,
    {
        let json = vote.choice.to_json();
        let vote_hash = sha256(json.as_str().as_bytes());
        SubmittedVote { inner: vote, hash: base64url_encode(vote_hash.as_slice()), submitted_at }
    }

    /// Whether the vote is held with the hash of its choice.
    pub fn has_own_hash(&self) -> (own: bool)
        ensures
            own == (self.hash@ == Self::hash_of(self.inner.choice)),
    {
        let json = self.inner.choice.to_json();
        let vote_hash = sha256(json.as_str().as_bytes());
        crate::encoding::text_equal(
            self.hash.as_str(),
            base64url_encode(vote_hash.as_slice()).as_str(),
        )
    }

    pub fn choices(&self) -> (choices: &Vec<Ciphertext>)
        ensures
            *choices == self.inner.choice.inner().choices,
    {
        self.inner.choice.choices_unchecked()
    }
}

/// Decryption share of one ciphertext with the proof that it is correct.
#[derive(Debug, Clone, PartialEq, Eq)]
pub struct ShareWithProof {
    pub share: CandidateDecryption,
    pub proof: LogEqualityProof,
}

/// Tallier's part in the decryption of a poll: one share for each option.
#[derive(Debug, Clone, PartialEq, Eq)]
pub struct TallierShare {
    pub shares: Vec<ShareWithProof>,
    pub public_key: PublicKey,
}

/// Why a tallier share was not accepted.
#[derive(Debug, Clone, PartialEq, Eq)]
pub enum TallierShareError {
    OptionsCount { expected: usize, actual: usize },
    IneligibleTallier,
    InvalidShare { index: usize, err: VerificationError },
    /// The votes of the poll cannot be added up, or the shares of all
    /// participants do not decrypt them to numbers of votes.
    Undecryptable,
}

/// The first of `outcomes` that is an error, with its place.
pub open spec fn first_failure<E>(outcomes: Seq<Result<(), E>>) -> Option<(usize, E)>
    decreases outcomes.len(),
{
    if outcomes.len() == 0 {
        None
    } else {
        match first_failure(outcomes.drop_last()) {
            Some(failure) => Some(failure),
            None => match outcomes.last() {
                Err(err) => Some(((outcomes.len() - 1) as usize, err)),
                Ok(_) => None,
            },
        }
    }
}

/// A failure among the first outcomes is the first failure among all.
pub proof fn lemma_first_failure_stays<E>(outcomes: Seq<Result<(), E>>, upto: int)
    requires
        0 <= upto <= outcomes.len(),
        first_failure(outcomes.take(upto)) is Some,
    ensures
        first_failure(outcomes) == first_failure(outcomes.take(upto)),
    decreases outcomes.len() - upto,
{
    if upto < outcomes.len() {
        assert(outcomes.take(upto + 1).drop_last() =~= outcomes.take(upto));
        lemma_first_failure_stays(outcomes, upto + 1);
    } else {
        assert(outcomes.take(upto) =~= outcomes);
    }
}

impl TallierShareError {
    pub open spec fn text(&self) -> Seq<char> {
        match self {
            TallierShareError::OptionsCount { expected, actual } =>
                "unexpected number of options: expected "@ + crate::encoding::decimal(
                    *expected as nat,
                ) + ", got "@ + crate::encoding::decimal(*actual as nat),
            TallierShareError::IneligibleTallier => "tallier is not eligible"@,
            TallierShareError::InvalidShare { index, err } => "cannot verify share for option #"@
                + crate::encoding::decimal((*index + 1) as nat) + ": "@ + err.message@,
            TallierShareError::Undecryptable => "cannot decrypt"@,
        }
    }

    pub fn to_string(&self) -> (text: String)
        ensures
            text@ == self.text(),
    {
        match self {
            TallierShareError::OptionsCount { expected, actual } => {
                let mut text = String::from_str("unexpected number of options: expected ");
                crate::encoding::append_decimal(&mut text, *expected as u128);
                text.append(", got ");
                crate::encoding::append_decimal(&mut text, *actual as u128);
                text
            },
            TallierShareError::IneligibleTallier => String::from_str("tallier is not eligible"),
            TallierShareError::InvalidShare { index, err } => {
                let mut text = String::from_str("cannot verify share for option #");
                crate::encoding::append_decimal(&mut text, *index as u128 + 1);
                text.append(": ");
                text.append(err.message.as_str());
                text
            },
            TallierShareError::Undecryptable => String::from_str("cannot decrypt"),
        }
    }

    pub fn ensure_options_count(expected: usize, actual: usize) -> (outcome: Result<(), Self>)
        ensures
            outcome == (if expected == actual {
                Ok::<(), TallierShareError>(())
            } else {
                Err::<(), TallierShareError>(TallierShareError::OptionsCount { expected, actual })
            }),
    {
        if expected == actual {
            Ok(())
        } else {
            Err(TallierShareError::OptionsCount { expected, actual })
        }
    }
}

impl TallierShare {
    /// The context that the proofs of a tallier share are bound to: the poll,
    /// its shared key and the number of its participants.
    pub open spec fn share_transcript(
        poll_id: PollId,
        shared_key: PublicKey,
        participants: nat,
    ) -> TranscriptView {
        TranscriptView::new("tallier_share"@).append_message("poll_id"@, poll_id@).append_message(
            "shared_key"@,
            shared_key@,
        ).append_u64("n"@, participants as u64)
    }

    fn create_transcript(poll_id: &PollId, poll_state: &PollState) -> (transcript: Transcript)
        requires
            poll_state@.shared_key is Some,
        ensures
            transcript@ == Self::share_transcript(
                *poll_id,
                poll_state@.shared_key->0,
                poll_state@.participants.len(),
            ),
            transcript.well_formed(),
    {
        proof {
            reveal_strlit("tallier_share");
            crate::encoding::lemma_encode_utf8_len("tallier_share"@);
        }
        let mut transcript = Transcript::new("tallier_share");
        transcript.append_message("poll_id", poll_id.0.as_slice());
        // Commit to the shared key and number of participants.
        transcript.append_message("shared_key", poll_state.finalized_shared_key().bytes.as_slice());
        transcript.append_u64("n", poll_state.participants().len() as u64);
        transcript
    }

    /// Whether a tallier share can be made with `keypair` for the poll `poll`:
    /// the votes can be added up, each of the sums decodes, and the secret key
    /// can be read.
    pub open spec fn can_be_made(keypair: &Keypair, poll: PollStateView) -> bool {
        &&& keypair.readable()
        &&& cumulative_choices(poll.participants, poll.spec.options@.len()) matches Some(sums)
        &&& forall|j: int| 0 <= j < sums.len() ==> ciphertext_decodes(#[trigger] sums[j])
    }

    /// Makes the shares of `keypair` for the votes that `poll_state` holds:
    /// one share for each option, under the public key of the pair, with
    /// proofs made with fresh randomness. There is a tallier share exactly
    /// where the votes can be added up, each of the sums decodes, and the
    /// secret key can be read.
    pub fn new(keypair: &Keypair, poll_id: &PollId, poll_state: &PollState) -> (share: Option<Self>)
        requires
            poll_state@.well_formed(),
            poll_state@.shared_key is Some,
        ensures
            share is Some <==> Self::can_be_made(keypair, poll_state@),
            share matches Some(share) ==> share.public_key == keypair.public_key()
                && share.shares.len() == poll_state@.spec.options.len(),
    {
        let transcript = Self::create_transcript(poll_id, poll_state);
        let ciphertexts = match poll_state.cumulative_choices() {
            Some(ciphertexts) => ciphertexts,
            None => {
                return None;
            },
        };
        let mut shares: Vec<ShareWithProof> = Vec::new();
        let mut i: usize = 0;
        while i < ciphertexts.len()
            invariant
                i <= ciphertexts.len(),
                shares.len() == i,
                transcript.well_formed(),
                cumulative_choices(
                    poll_state@.participants,
                    poll_state@.spec.options@.len(),
                ) == Some(texts(ciphertexts@)),
                i > 0 ==> keypair.readable(),
                forall|j: int| 0 <= j < i ==> ciphertext_decodes(#[trigger] texts(ciphertexts@)[j]),
            decreases ciphertexts.len() - i,
        {
            assert(texts(ciphertexts@)[i as int] == ciphertexts[i as int]@);
            match prove_decryption(&ciphertexts[i], keypair, &transcript) {
                Some((share, proof)) => {
                    shares.push(ShareWithProof { share, proof });
                },
                None => {
                    proof {
                        let sums = cumulative_choices(
                            poll_state@.participants,
                            poll_state@.spec.options@.len(),
                        )->0;
                        assert(sums == texts(ciphertexts@));
                        assert(keypair.readable() ==> 0 <= i < sums.len() && !ciphertext_decodes(
                            sums[i as int],
                        ));
                    }
                    return None;
                },
            }
            i += 1;
        }
        Some(TallierShare { shares, public_key: *keypair.public() })
    }

    /// The outcome of the check of each share against the ciphertext in the
    /// same place.
    pub open spec fn outcomes(&self, ciphertexts: Seq<Seq<char>>, transcript: TranscriptView) -> Seq<
        Result<(), VerificationError>,
    > {
        Seq::new(
            if self.shares.len() <= ciphertexts.len() {
                self.shares.len() as nat
            } else {
                ciphertexts.len()
            },
            |i: int|
                decryption_outcome(
                    self.shares[i].share@,
                    ciphertexts[i],
                    self.public_key@,
                    self.shares[i].proof@,
                    transcript,
                ),
        )
    }

    /// Checks each share against the ciphertext in the same place, up to the
    /// first that fails: the outcomes of the checks that were made.
    pub fn check_shares(&self, ciphertexts: &Vec<Ciphertext>, transcript: &Transcript) -> (checked:
        Vec<Result<(), VerificationError>>)
        requires
            transcript.well_formed(),
        ensures
            first_failure(checked@) == first_failure(
                self.outcomes(texts(ciphertexts@), transcript@),
            ),
    {
        let count = if self.shares.len() <= ciphertexts.len() {
            self.shares.len()
        } else {
            ciphertexts.len()
        };
        let ghost outcomes = self.outcomes(texts(ciphertexts@), transcript@);
        let mut checked: Vec<Result<(), VerificationError>> = Vec::new();
        let mut i: usize = 0;
        while i < count
            invariant
                i <= count,
                count == outcomes.len(),
                count <= self.shares.len(),
                count <= ciphertexts.len(),
                transcript.well_formed(),
                outcomes == self.outcomes(texts(ciphertexts@), transcript@),
                checked@ =~= outcomes.take(i as int),
                first_failure(checked@) is None,
            decreases count - i,
        {
            // transcripts for all proofs are independent
            let outcome = check_decryption(
                &self.shares[i].share,
                &ciphertexts[i],
                &self.public_key,
                &self.shares[i].proof,
                transcript,
            );
            let failed = outcome.is_err();
            checked.push(outcome);
            assert(checked@ =~= outcomes.take(i + 1));
            assert(checked@.drop_last() =~= outcomes.take(i as int));
            if failed {
                proof {
                    lemma_first_failure_stays(outcomes, i + 1);
                }
                return checked;
            }
            i += 1;
        }
        assert(outcomes.take(i as int) =~= outcomes);
        checked
    }

    /// What a tallier share is judged to be, given the outcome of each check.
    /// The checks count in this order: there is a share for each option; the
    /// tallier is a participant; the votes can be added up; each share is
    /// proved to be correct. The first that fails gives the error, and the
    /// first share that fails gives its place.
    pub open spec fn verdict_of(
        expected: usize,
        actual: usize,
        eligible: bool,
        outcomes: Option<Seq<Result<(), VerificationError>>>,
    ) -> Result<(), TallierShareError> {
        if expected != actual {
            Err(TallierShareError::OptionsCount { expected, actual })
        } else if !eligible {
            Err(TallierShareError::IneligibleTallier)
        } else {
            match outcomes {
                None => Err(TallierShareError::Undecryptable),
                Some(outcomes) => match first_failure(outcomes) {
                    Some((index, err)) => Err(TallierShareError::InvalidShare { index, err }),
                    None => Ok(()),
                },
            }
        }
    }

    /// Judges a tallier share by the outcome of each check: see
    /// [`TallierShare::verdict_of`]. `outcomes` is `None` where the votes cannot
    /// be added up.
    pub fn verdict(
        expected: usize,
        actual: usize,
        eligible: bool,
        outcomes: Option<Vec<Result<(), VerificationError>>>,
    ) -> (verdict: Result<(), TallierShareError>)
        ensures
            verdict == Self::verdict_of(
                expected,
                actual,
                eligible,
                match outcomes {
                    Some(outcomes) => Some(outcomes@),
                    None => None,
                },
            ),
    {
        match TallierShareError::ensure_options_count(expected, actual) {
            Err(err) => {
                return Err(err);
            },
            Ok(_) => {},
        }
        if !eligible {
            return Err(TallierShareError::IneligibleTallier);
        }
        let mut outcomes = match outcomes {
            Some(outcomes) => outcomes,
            None => {
                return Err(TallierShareError::Undecryptable);
            },
        };
        let ghost all = outcomes@;
        let mut failure: Option<(usize, VerificationError)> = None;
        while outcomes.len() > 0
            invariant
                outcomes@.len() <= all.len(),
                outcomes@ =~= all.take(outcomes@.len() as int),
                first_failure(all) == (match first_failure(outcomes@) {
                    Some(earlier) => Some(earlier),
                    None => failure,
                }),
            decreases outcomes.len(),
        {
            let index = outcomes.len() - 1;
            let ghost before = outcomes@;
            let last = outcomes.pop();
            assert(outcomes@ =~= before.drop_last());
            match last {
                Some(Err(err)) => {
                    failure = Some((index, err));
                },
                _ => {},
            }
        }
        match failure {
            Some((index, err)) => Err(TallierShareError::InvalidShare { index, err }),
            None => Ok(()),
        }
    }

    /// What [`TallierShare::verify`] makes of the share in the poll `poll` with
    /// the ID `poll_id`.
    pub open spec fn verified(&self, poll_id: PollId, poll: PollStateView) -> Result<
        (),
        TallierShareError,
    >
        recommends
            poll.shared_key is Some,
    {
        Self::verdict_of(
            poll.spec.options.len() as usize,
            self.shares.len() as usize,
            poll.has_participant(self.public_key),
            match cumulative_choices(poll.participants, poll.spec.options@.len()) {
                Some(ciphertexts) => Some(
                    self.outcomes(
                        ciphertexts,
                        Self::share_transcript(
                            poll_id,
                            poll.shared_key->0,
                            poll.participants.len(),
                        ),
                    ),
                ),
                None => None,
            },
        )
    }

    /// Checks the share against the poll `poll` with the ID `poll_id`: that
    /// there is a share for each option, that the tallier is a participant,
    /// and that each share is proved to be the tallier's share of the votes
    /// that the poll holds for the option.
    pub fn verify(&self, poll_id: &PollId, poll: &PollState) -> (outcome: Result<
        (),
        TallierShareError,
    >)
        requires
            poll@.well_formed(),
            poll@.shared_key is Some,
        ensures
            outcome == self.verified(*poll_id, poll@),
            !poll@.has_participant(self.public_key) ==> outcome is Err,
            !poll@.has_participant(self.public_key) && self.shares.len()
                == poll@.spec.options.len() ==> outcome == Err::<(), TallierShareError>(
                TallierShareError::IneligibleTallier,
            ),
    {
        // A check is made only once the checks before it have passed: the
        // verdict does not depend on what comes after the first failure.
        let expected = poll.spec().options.len();
        let actual = self.shares.len();
        let eligible = if expected == actual {
            poll.has_participant(&self.public_key)
        } else {
            false
        };
        let outcomes = if eligible {
            match poll.cumulative_choices() {
                Some(ciphertexts) => {
                    let transcript = Self::create_transcript(poll_id, poll);
                    Some(self.check_shares(&ciphertexts, &transcript))
                },
                None => None,
            }
        } else {
            None
        };
        Self::verdict(expected, actual, eligible, outcomes)
    }
}

/// Tallier share as a poll holds it, with the time at which it was submitted.
#[derive(Debug, Clone, PartialEq, Eq)]
pub struct SubmittedTallierShare {
    pub inner: TallierShare,
    /// Unix timestamp (in milliseconds).
    pub submitted_at: u64,
}

impl SubmittedTallierShare {
    /// Takes `share` in as submitted at `submitted_at`.
    pub fn new(share: TallierShare, submitted_at: u64) -> (submitted: Self)
        ensures
            submitted == (SubmittedTallierShare { inner: share, submitted_at }),
    {
        SubmittedTallierShare { inner: share, submitted_at }
    }
}

/// Poll participant (voter / tallier).
#[derive(Debug, Clone, PartialEq, Eq)]
pub struct Participant {
    pub application: ParticipantApplication,
    /// Unix timestamp (in milliseconds).
    pub created_at: u64,
    pub vote: Option<SubmittedVote>,
    pub tallier_share: Option<SubmittedTallierShare>,
}

impl Participant {
    /// Admits the applicant at the time `created_at`, with no vote and no
    /// tallier share yet.
    pub fn new(application: ParticipantApplication, created_at: u64) -> (participant: Self)
        ensures
            participant == (Participant {
                application,
                created_at,
                vote: None,
                tallier_share: None,
            }),
    {
        Participant { application, created_at, vote: None, tallier_share: None }
    }

    pub open spec fn key(&self) -> PublicKey {
        self.application.public_key
    }

    pub fn public_key(&self) -> (key: &PublicKey)
        ensures
            *key == self.key(),
    {
        &self.application.public_key
    }

    pub fn public_key_bytes(&self) -> (bytes: [u8; 32])
        ensures
            bytes == self.key().bytes,
    {
        self.application.public_key.bytes
    }
}

} // verus!

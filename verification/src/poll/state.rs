//! The state of a poll: who takes part, what the participants have
//! submitted, and how far the poll has got.

use crate::encoding::{append_decimal, decimal, sha256_digest};
use crate::group::{add_keys, key_sum, texts, Ciphertext, PublicKey};
use crate::poll::laws;
use crate::poll::participant::{
    first_failure, lemma_first_failure_stays, Participant, ParticipantApplication,
    SubmittedTallierShare, SubmittedVote, TallierShare, TallierShareError, Vote, VoteError,
};
use crate::poll::tally::{
    cumulative_choices, cumulative_choices_of, decrypt_tally, lemma_tally_same_votes, share_lists,
    tally,
};
use crate::poll::{PollId, PollSpec, PollStage};
use crate::proofs::{possession_outcome, VerificationError};
use vstd::prelude::*;
use vstd::string::*;
use vstd::utf8::encode_utf8;

verus! {

/// Whether the poll's votes are being tallied, or what the tally was.
#[derive(Debug, Clone, PartialEq, Eq)]
pub enum TallyResult {
    InProgress,
    Finished(Vec<u64>),
}

/// Number of the participants in `participants` of which `counted` holds.
pub open spec fn count_where(
    participants: Seq<Participant>,
    counted: spec_fn(Participant) -> bool,
) -> nat
    decreases participants.len(),
{
    if participants.len() == 0 {
        0
    } else {
        count_where(participants.drop_last(), counted) + if counted(participants.last()) {
            1nat
        } else {
            0nat
        }
    }
}

/// Holds of a participant that has voted.
pub open spec fn voted() -> spec_fn(Participant) -> bool {
    |p: Participant| p.vote is Some
}

/// Holds of a participant that has submitted a tallier share.
pub open spec fn shared() -> spec_fn(Participant) -> bool {
    |p: Participant| p.tallier_share is Some
}

/// Number of the participants that have voted.
pub open spec fn count_votes(participants: Seq<Participant>) -> nat {
    count_where(participants, voted())
}

/// Number of the participants that have submitted a tallier share.
pub open spec fn count_shares(participants: Seq<Participant>) -> nat {
    count_where(participants, shared())
}

/// Whether one of `participants` has the public key `key`.
pub open spec fn has_key(participants: Seq<Participant>, key: PublicKey) -> bool {
    exists|i: int| 0 <= i < participants.len() && (#[trigger] participants[i]).key()@ == key@
}

/// No two of `participants` have the same public key.
pub open spec fn distinct_keys(participants: Seq<Participant>) -> bool {
    forall|i: int, j: int|
        0 <= i < j < participants.len() ==> (#[trigger] participants[i]).key()@ != (
        #[trigger] participants[j]).key()@
}

/// Where no two participants have the same public key, a key that is the key
/// of one participant is the key of no other.
pub proof fn lemma_key_of_one(participants: Seq<Participant>, holder: int, key: PublicKey)
    requires
        distinct_keys(participants),
        0 <= holder < participants.len(),
        participants[holder].key()@ == key@,
    ensures
        forall|j: int|
            0 <= j < participants.len() && j != holder ==> (#[trigger] participants[j]).key()@
                != key@,
{
    assert forall|j: int| 0 <= j < participants.len() && j != holder implies (
    #[trigger] participants[j]).key()@ != key@ by {
        if j < holder {
            assert(participants[j].key()@ != participants[holder].key()@);
        } else {
            assert(participants[holder].key()@ != participants[j].key()@);
        }
    }
}

/// Each participant holds a vote and a tallier share only under the
/// participant's own public key.
pub open spec fn own_submissions(participants: Seq<Participant>) -> bool {
    forall|i: int|
        0 <= i < participants.len() ==> {
            &&& (#[trigger] participants[i]).vote matches Some(vote) ==> vote.inner.public_key@
                == participants[i].key()@
            &&& participants[i].tallier_share matches Some(share) ==> share.inner.public_key@
                == participants[i].key()@
        }
}

/// The sum of the public keys of `participants`, added from the first to the
/// last: `None` where there is no participant or a sum cannot be formed.
pub open spec fn combined_key(participants: Seq<Participant>) -> Option<Seq<u8>>
    decreases participants.len(),
{
    if participants.len() == 0 {
        None
    } else if participants.len() == 1 {
        Some(participants[0].key()@)
    } else {
        match combined_key(participants.drop_last()) {
            Some(sum) => key_sum(sum, participants.last().key()@),
            None => None,
        }
    }
}

pub proof fn lemma_count_where_bounded(
    participants: Seq<Participant>,
    counted: spec_fn(Participant) -> bool,
)
    ensures
        count_where(participants, counted) <= participants.len(),
    decreases participants.len(),
{
    if participants.len() > 0 {
        lemma_count_where_bounded(participants.drop_last(), counted);
    }
}

/// A count is zero where `counted` holds of no participant, and the number of
/// participants where it holds of each.
pub proof fn lemma_count_where_uniform(
    participants: Seq<Participant>,
    counted: spec_fn(Participant) -> bool,
)
    ensures
        (forall|i: int| 0 <= i < participants.len() ==> !counted(#[trigger] participants[i]))
            <==> count_where(participants, counted) == 0,
        (forall|i: int| 0 <= i < participants.len() ==> counted(#[trigger] participants[i]))
            <==> count_where(participants, counted) == participants.len(),
    decreases participants.len(),
{
    if participants.len() > 0 {
        let head = participants.drop_last();
        lemma_count_where_uniform(head, counted);
        lemma_count_where_bounded(head, counted);
        assert(forall|i: int| 0 <= i < head.len() ==> head[i] == participants[i]);
        if count_where(participants, counted) == 0 {
            assert forall|i: int| 0 <= i < participants.len() implies !counted(
                #[trigger] participants[i],
            ) by {
                if i < head.len() {
                    assert(head[i] == participants[i]);
                }
            }
        }
        if count_where(participants, counted) == participants.len() {
            assert forall|i: int| 0 <= i < participants.len() implies counted(
                #[trigger] participants[i],
            ) by {
                if i < head.len() {
                    assert(head[i] == participants[i]);
                }
            }
        }
    }
}

/// Replacing one participant changes a count by what the replacement changes
/// for that participant.
pub proof fn lemma_count_where_update(
    participants: Seq<Participant>,
    index: int,
    replacement: Participant,
    counted: spec_fn(Participant) -> bool,
)
    requires
        0 <= index < participants.len(),
    ensures
        count_where(participants.update(index, replacement), counted) + (if counted(
            participants[index],
        ) {
            1nat
        } else {
            0nat
        }) == count_where(participants, counted) + (if counted(replacement) {
            1nat
        } else {
            0nat
        }),
    decreases participants.len(),
{
    let updated = participants.update(index, replacement);
    if index == participants.len() - 1 {
        assert(updated.drop_last() =~= participants.drop_last());
    } else {
        assert(updated.drop_last() =~= participants.drop_last().update(index, replacement));
        lemma_count_where_update(participants.drop_last(), index, replacement, counted);
    }
}

/// Once the sum of the keys of the first participants cannot be formed, the
/// sum of all keys cannot be formed either.
pub proof fn lemma_combined_key_fails_on(participants: Seq<Participant>, upto: int)
    requires
        1 <= upto <= participants.len(),
        combined_key(participants.take(upto)) is None,
    ensures
        combined_key(participants) is None,
    decreases participants.len() - upto,
{
    if upto < participants.len() {
        assert(participants.take(upto + 1).drop_last() =~= participants.take(upto));
        lemma_combined_key_fails_on(participants, upto + 1);
    } else {
        assert(participants.take(upto) =~= participants);
    }
}

/// The sum of the keys depends on the keys alone.
pub proof fn lemma_combined_key_same_keys(a: Seq<Participant>, b: Seq<Participant>)
    requires
        a.len() == b.len(),
        forall|i: int| 0 <= i < a.len() ==> (#[trigger] a[i]).key() == b[i].key(),
    ensures
        combined_key(a) == combined_key(b),
        distinct_keys(a) == distinct_keys(b),
    decreases a.len(),
{
    if a.len() > 1 {
        assert(a.drop_last().len() == b.drop_last().len());
        assert forall|i: int| 0 <= i < a.drop_last().len() implies (#[trigger] a.drop_last()[i]).key()
            == b.drop_last()[i].key() by {
            assert(a.drop_last()[i] == a[i]);
        }
        lemma_combined_key_same_keys(a.drop_last(), b.drop_last());
        assert(a.last().key() == a[a.len() - 1].key());
    } else if a.len() == 1 {
        assert(a[0].key() == b[0].key());
    }
    if distinct_keys(a) {
        assert forall|i: int, j: int| 0 <= i < j < b.len() implies (#[trigger] b[i]).key()@ != (
        #[trigger] b[j]).key()@ by {
            assert(a[i].key() == b[i].key());
            assert(a[j].key() == b[j].key());
        }
    }
    if distinct_keys(b) {
        assert forall|i: int, j: int| 0 <= i < j < a.len() implies (#[trigger] a[i]).key()@ != (
        #[trigger] a[j]).key()@ by {
            assert(a[i].key() == b[i].key());
            assert(a[j].key() == b[j].key());
        }
    }
}

/// `participants` after `application` is admitted at the time `now`: the
/// applicant takes the place of the participant with the same public key, if
/// there is one, and the last place if there is none.
pub open spec fn with_application(
    participants: Seq<Participant>,
    application: ParticipantApplication,
    now: u64,
) -> Seq<Participant> {
    let admitted = Participant { application, created_at: now, vote: None, tallier_share: None };
    if has_key(participants, application.public_key) {
        Seq::new(
            participants.len(),
            |i: int|
                if participants[i].key()@ == application.public_key@ {
                    admitted
                } else {
                    participants[i]
                },
        )
    } else {
        participants.push(admitted)
    }
}

/// Whether `after` is `before` with the vote `vote`, submitted at `now`, in
/// the place of the vote of the participant with the voter's public key, and
/// nothing else changed.
pub open spec fn vote_recorded(
    before: Seq<Participant>,
    after: Seq<Participant>,
    vote: Vote,
    now: u64,
) -> bool {
    &&& after.len() == before.len()
    &&& forall|i: int|
        0 <= i < before.len() ==> if (#[trigger] before[i]).key()@ == vote.public_key@ {
            &&& after[i].application == before[i].application
            &&& after[i].created_at == before[i].created_at
            &&& after[i].tallier_share == before[i].tallier_share
            &&& after[i].vote matches Some(submitted)
            &&& submitted.inner == vote
            &&& submitted.submitted_at == now
            &&& submitted.hash@ == SubmittedVote::hash_of(vote.choice)
        } else {
            after[i] == before[i]
        }
}

/// `participants` after the tallier share `share` is recorded at the time
/// `now` for the participant with its public key.
pub open spec fn with_share(participants: Seq<Participant>, share: TallierShare, now: u64) -> Seq<
    Participant,
> {
    Seq::new(
        participants.len(),
        |k: int|
            if participants[k].key()@ == share.public_key@ {
                Participant {
                    tallier_share: Some(SubmittedTallierShare { inner: share, submitted_at: now }),
                    ..participants[k]
                }
            } else {
                participants[k]
            },
    )
}

/// Whether the share of the participant with the public key `key` is the only
/// one that `participants` miss.
pub open spec fn completed_by(participants: Seq<Participant>, key: PublicKey) -> bool {
    forall|k: int|
        0 <= k < participants.len() && (#[trigger] participants[k]).key()@ != key@
            ==> participants[k].tallier_share is Some
}

/// Whether the participant with the public key `key` has voted.
pub open spec fn has_voted(participants: Seq<Participant>, key: PublicKey) -> bool {
    exists|i: int|
        0 <= i < participants.len() && (#[trigger] participants[i]).key()@ == key@
            && participants[i].vote is Some
}

/// A poll as specifications see it.
pub struct PollStateView {
    pub created_at: u64,
    pub spec: PollSpec,
    pub participants: Seq<Participant>,
    pub shared_key: Option<PublicKey>,
    pub tally_result: Option<TallyResult>,
}

impl PollStateView {
    pub open spec fn has_participant(self, key: PublicKey) -> bool {
        has_key(self.participants, key)
    }

    /// The stage of the poll, with its counts.
    pub open spec fn stage(self) -> PollStage {
        if self.shared_key is None {
            PollStage::Participants { participants: self.participants.len() as usize }
        } else {
            match self.tally_result {
                None => PollStage::Voting {
                    votes: count_votes(self.participants) as usize,
                    participants: self.participants.len() as usize,
                },
                Some(TallyResult::InProgress) => PollStage::Tallying {
                    shares: count_shares(self.participants) as usize,
                    participants: self.participants.len() as usize,
                },
                Some(TallyResult::Finished(_)) => PollStage::Finished,
            }
        }
    }

    /// What holds of every poll.
    ///
    /// - The poll has between 1 and [`MAX_OPTIONS`] options.
    /// - No two participants have the same public key.
    /// - The vote and the tallier share that a participant holds are under
    ///   the participant's public key.
    /// - The shared key, once set, is the sum of the participants' keys.
    /// - Votes are held only once the shared key is set, tallier shares only
    ///   once the votes are final.
    /// - While the tally is in progress a share is missing.
    /// - The results of a finished poll are what the shares of all
    ///   participants decrypt the votes to, and no result is greater than the
    ///   number of participants.
    pub open spec fn well_formed(self) -> bool {
        &&& self.spec.valid()
        &&& distinct_keys(self.participants)
        &&& own_submissions(self.participants)
        &&& self.shared_key matches Some(key) ==> combined_key(self.participants) == Some(key@)
        &&& self.shared_key is None ==> self.tally_result is None && count_votes(
            self.participants,
        ) == 0
        &&& self.tally_result is None ==> count_shares(self.participants) == 0
        &&& self.tally_result == Some(TallyResult::InProgress) ==> count_shares(
            self.participants,
        ) < self.participants.len()
        &&& self.tally_result matches Some(TallyResult::Finished(results)) ==> {
            &&& count_shares(self.participants) == self.participants.len()
            &&& tally(
                self.participants,
                share_lists(self.participants, None),
                self.spec.options@.len(),
            ) == Some(results@)
            &&& forall|j: int|
                0 <= j < results.len() ==> #[trigger] results[j] <= self.participants.len()
        }
    }

    /// Each vote that the poll holds can be signed, and is held with the hash
    /// of its choice.
    pub open spec fn votes_sound(self) -> bool {
        forall|i: int|
            0 <= i < self.participants.len() ==> ((#[trigger] self.participants[i]).vote matches Some(
                vote,
            ) ==> vote.inner.choice.signable() && vote.hash@ == SubmittedVote::hash_of(
                vote.inner.choice,
            ))
    }

    /// The parts of the poll agree with each other: see
    /// [`PollStateView::well_formed`] and [`PollStateView::votes_sound`].
    pub open spec fn consistent(self) -> bool {
        self.well_formed() && self.votes_sound()
    }

    /// The outcome of the check of each participant's application.
    pub open spec fn application_outcomes(self, id: PollId) -> Seq<Result<(), VerificationError>> {
        Seq::new(
            self.participants.len(),
            |i: int|
                possession_outcome(
                    self.participants[i].application.public_key@,
                    self.participants[i].application.participation_consent@,
                    ParticipantApplication::consent_transcript(id),
                ),
        )
    }

    /// The outcome of the check of each participant's vote; `Ok` for a
    /// participant that has not voted.
    pub open spec fn vote_outcomes(self, id: PollId) -> Seq<Result<(), VoteError>> {
        Seq::new(
            self.participants.len(),
            |i: int|
                match self.participants[i].vote {
                    Some(vote) => vote.inner.verified(id, self),
                    None => Ok(()),
                },
        )
    }

    /// The outcome of the check of each participant's tallier share; `Ok` for
    /// a participant that has not submitted one.
    pub open spec fn share_outcomes(self, id: PollId) -> Seq<Result<(), TallierShareError>> {
        Seq::new(
            self.participants.len(),
            |i: int|
                match self.participants[i].tallier_share {
                    Some(share) => share.inner.verified(id, self),
                    None => Ok(()),
                },
        )
    }

    /// What the check of the whole poll with the ID `id` gives: `Ok` where its
    /// parts agree with each other and each application, vote and tallier share
    /// passes its check. The applications are checked first, then the votes,
    /// then the shares, each from the first participant to the last; the first
    /// that fails gives the error.
    pub open spec fn import_outcome(self, id: PollId) -> Result<(), ImportError> {
        if !self.consistent() {
            Err(ImportError::Inconsistent)
        } else {
            match first_failure(self.application_outcomes(id)) {
                Some((index, err)) => Err(ImportError::Application { index, err }),
                None => match first_failure(self.vote_outcomes(id)) {
                    Some((index, err)) => Err(ImportError::Vote { index, err }),
                    None => match first_failure(self.share_outcomes(id)) {
                        Some((index, err)) => Err(ImportError::TallierShare { index, err }),
                        None => Ok(()),
                    },
                },
            }
        }
    }

    /// What taking the parts in gives: the poll with these parts, or the
    /// reason for which they are refused.
    pub open spec fn imported(self, id: PollId) -> Result<PollStateView, ImportError> {
        match self.import_outcome(id) {
            Ok(_) => Ok(self),
            Err(err) => Err(err),
        }
    }

    /// The poll's parts agree with each other, and each application, vote and
    /// tallier share that it holds passes its check in the poll with the ID
    /// `id`. This holds of a poll that is opened and then takes in only what
    /// passes its check, and is what it takes for a poll to be taken in again
    /// once it is handed over.
    pub open spec fn valid(self, id: PollId) -> bool {
        &&& self.consistent()
        &&& forall|i: int|
            0 <= i < self.participants.len() ==> (#[trigger] self.application_outcomes(id)[i]) is Ok
        &&& forall|i: int|
            0 <= i < self.participants.len() ==> (#[trigger] self.vote_outcomes(id)[i]) is Ok
        &&& forall|i: int|
            0 <= i < self.participants.len() ==> (#[trigger] self.share_outcomes(id)[i]) is Ok
    }

    /// The results of the poll, once it is finished.
    pub open spec fn results(self) -> Option<Seq<u64>> {
        match self.tally_result {
            Some(TallyResult::Finished(results)) => Some(results@),
            _ => None,
        }
    }
}

/// Why the parts of a poll were not taken in as a poll.
#[derive(Debug, Clone, PartialEq, Eq)]
pub enum ImportError {
    /// The parts contradict each other.
    Inconsistent,
    /// The application of the participant at the place `index` is not valid.
    Application { index: usize, err: VerificationError },
    /// The vote of the participant at the place `index` is not valid.
    Vote { index: usize, err: VoteError },
    /// The tallier share of the participant at the place `index` is not valid.
    TallierShare { index: usize, err: TallierShareError },
}

impl ImportError {
    pub open spec fn text(&self) -> Seq<char> {
        match self {
            ImportError::Inconsistent => "parts of the poll contradict each other"@,
            ImportError::Application { index, err } => "cannot verify application of participant #"@
                + decimal((*index + 1) as nat) + ": "@ + err.message@,
            ImportError::Vote { index, err } => "cannot verify vote of participant #"@ + decimal(
                (*index + 1) as nat,
            ) + ": "@ + err.text(),
            ImportError::TallierShare { index, err } =>
                "cannot verify tallier share of participant #"@ + decimal((*index + 1) as nat)
                    + ": "@ + err.text(),
        }
    }

    pub fn to_string(&self) -> (text: String)
        ensures
            text@ == self.text(),
    {
        match self {
            ImportError::Inconsistent => String::from_str(
                "parts of the poll contradict each other",
            ),
            ImportError::Application { index, err } => {
                let mut text = String::from_str("cannot verify application of participant #");
                append_decimal(&mut text, *index as u128 + 1);
                text.append(": ");
                text.append(err.message.as_str());
                text
            },
            ImportError::Vote { index, err } => {
                let mut text = String::from_str("cannot verify vote of participant #");
                append_decimal(&mut text, *index as u128 + 1);
                text.append(": ");
                text.append(err.to_string().as_str());
                text
            },
            ImportError::TallierShare { index, err } => {
                let mut text = String::from_str("cannot verify tallier share of participant #");
                append_decimal(&mut text, *index as u128 + 1);
                text.append(": ");
                text.append(err.to_string().as_str());
                text
            },
        }
    }
}

/// The parts of a poll, as they are handed over to be stored or sent.
#[derive(Debug, Clone, PartialEq, Eq)]
pub struct ExportedPoll {
    /// Unix timestamp (in milliseconds).
    pub created_at: u64,
    pub spec: PollSpec,
    pub participants: Vec<Participant>,
    pub shared_key: Option<PublicKey>,
    pub tally_result: Option<TallyResult>,
}

impl View for ExportedPoll {
    type V = PollStateView;

    open spec fn view(&self) -> PollStateView {
        PollStateView {
            created_at: self.created_at,
            spec: self.spec,
            participants: self.participants@,
            shared_key: self.shared_key,
            tally_result: self.tally_result,
        }
    }
}

/// Ongoing or finished poll state.
#[derive(Debug, Clone, PartialEq, Eq)]
pub struct PollState {
    /// Unix timestamp (in milliseconds).
    created_at: u64,
    spec: PollSpec,
    participants: Vec<Participant>,
    /// Shared encryption key for the voting. Only present if the set of participants is final.
    shared_key: Option<PublicKey>,
    tally_result: Option<TallyResult>,
}

impl View for PollState {
    type V = PollStateView;

    closed spec fn view(&self) -> PollStateView {
        PollStateView {
            created_at: self.created_at,
            spec: self.spec,
            participants: self.participants@,
            shared_key: self.shared_key,
            tally_result: self.tally_result,
        }
    }
}

impl PollState {
    /// Opens a poll for `spec` at the time `created_at`, with no participants.
    pub fn new(spec: PollSpec, created_at: u64) -> (poll: Self)
        requires
            spec.valid(),
        ensures
            poll@ == (PollStateView {
                created_at,
                spec,
                participants: Seq::empty(),
                shared_key: None,
                tally_result: None,
            }),
            poll@.well_formed(),
    {
        PollState {
            spec,
            created_at,
            participants: Vec::new(),
            shared_key: None,
            tally_result: None,
        }
    }

    pub fn created_at(&self) -> (created_at: u64)
        ensures
            created_at == self@.created_at,
    {
        self.created_at
    }

    pub fn spec(&self) -> (spec: &PollSpec)
        ensures
            *spec == self@.spec,
    {
        &self.spec
    }

    pub fn participants(&self) -> (participants: &Vec<Participant>)
        ensures
            participants@ == self@.participants,
    {
        &self.participants
    }

    /// The place of the participant with the public key `key`, if there is
    /// one.
    pub fn position(&self, key: &PublicKey) -> (position: Option<usize>)
        ensures
            match position {
                Some(i) => i < self@.participants.len() && self@.participants[i as int].key()@
                    == key@,
                None => !has_key(self@.participants, *key),
            },
    {
        let mut i: usize = 0;
        while i < self.participants.len()
            invariant
                i <= self.participants.len(),
                forall|j: int| 0 <= j < i ==> (#[trigger] self.participants[j]).key()@ != key@,
            decreases self.participants.len() - i,
        {
            if self.participants[i].public_key().same_as(key) {
                return Some(i);
            }
            i += 1;
        }
        None
    }

    pub fn has_participant(&self, public_key: &PublicKey) -> (found: bool)
        ensures
            found == self@.has_participant(*public_key),
    {
        self.position(public_key).is_some()
    }

    /// The place of the participant with the public key `key`, who is one of
    /// the participants.
    fn place_of(&self, key: &PublicKey) -> (place: usize)
        requires
            has_key(self.participants@, *key),
        ensures
            place < self.participants.len(),
            self.participants[place as int].key()@ == key@,
    {
        match self.position(key) {
            Some(place) => place,
            None => vstd::pervasive::unreached(),
        }
    }

    /// Counts the participants that have voted.
    fn votes(&self) -> (votes: usize)
        ensures
            votes == count_votes(self.participants@),
    {
        let mut votes: usize = 0;
        let mut i: usize = 0;
        while i < self.participants.len()
            invariant
                i <= self.participants.len(),
                votes == count_votes(self.participants@.take(i as int)),
                votes <= i,
            decreases self.participants.len() - i,
        {
            assert(self.participants@.take(i + 1).drop_last() =~= self.participants@.take(
                i as int,
            ));
            if self.participants[i].vote.is_some() {
                votes += 1;
            }
            i += 1;
        }
        assert(self.participants@.take(i as int) =~= self.participants@);
        votes
    }

    /// Counts the participants that have submitted a tallier share.
    fn shares(&self) -> (shares: usize)
        ensures
            shares == count_shares(self.participants@),
    {
        let mut shares: usize = 0;
        let mut i: usize = 0;
        while i < self.participants.len()
            invariant
                i <= self.participants.len(),
                shares == count_shares(self.participants@.take(i as int)),
                shares <= i,
            decreases self.participants.len() - i,
        {
            assert(self.participants@.take(i + 1).drop_last() =~= self.participants@.take(
                i as int,
            ));
            if self.participants[i].tallier_share.is_some() {
                shares += 1;
            }
            i += 1;
        }
        assert(self.participants@.take(i as int) =~= self.participants@);
        shares
    }

    /// Admits the applicant at the time `now`. An application with the public
    /// key of a participant replaces that participant.
    pub fn insert_participant(&mut self, application: ParticipantApplication, now: u64)
        requires
            old(self)@.well_formed(),
            old(self)@.shared_key is None,
        ensures
            final(self)@ == (PollStateView {
                participants: with_application(old(self)@.participants, application, now),
                ..old(self)@
            }),
            final(self)@.well_formed(),
            final(self)@.has_participant(application.public_key),
            final(self)@.stage().index() >= old(self)@.stage().index(),
    {
        let ghost before = self.participants@;
        let ghost admitted = Participant {
            application,
            created_at: now,
            vote: None,
            tallier_share: None,
        };
        proof {
            lemma_count_where_uniform(before, voted());
            lemma_count_where_uniform(before, shared());
        }
        match self.position(&application.public_key) {
            Some(i) => {
                self.participants[i] = Participant::new(application, now);
                proof {
                    let after = self.participants@;
                    lemma_key_of_one(before, i as int, application.public_key);
                    assert(after =~= with_application(before, application, now));
                    assert(after[i as int].key()@ == application.public_key@);
                    lemma_count_where_update(before, i as int, admitted, voted());
                    lemma_count_where_update(before, i as int, admitted, shared());
                    assert(after =~= before.update(i as int, admitted));
                }
            },
            None => {
                self.participants.push(Participant::new(application, now));
                proof {
                    let after = self.participants@;
                    assert(after.drop_last() =~= before);
                    assert(after[before.len() as int].key()@ == application.public_key@);
                }
            },
        }
    }

    /// Removes the participant at the place `index`.
    pub fn remove_participant(&mut self, index: usize)
        requires
            old(self)@.well_formed(),
            old(self)@.shared_key is None,
            index < old(self)@.participants.len(),
        ensures
            final(self)@ == (PollStateView {
                participants: old(self)@.participants.remove(index as int),
                ..old(self)@
            }),
            final(self)@.well_formed(),
            final(self)@.stage().index() >= old(self)@.stage().index(),
    {
        let ghost before = self.participants@;
        proof {
            lemma_count_where_uniform(before, voted());
            lemma_count_where_uniform(before, shared());
        }
        self.participants.remove(index);
        proof {
            let after = self.participants@;
            assert forall|j: int| 0 <= j < after.len() implies !voted()(#[trigger] after[j])
                && !shared()(after[j]) by {
                if j < index as int {
                    assert(after[j] == before[j]);
                } else {
                    assert(after[j] == before[j + 1]);
                }
            }
            lemma_count_where_uniform(after, voted());
            lemma_count_where_uniform(after, shared());
            assert forall|i: int, j: int| 0 <= i < j < after.len() implies (
            #[trigger] after[i]).key()@ != (#[trigger] after[j]).key()@ by {
                let bi = if i < index as int {
                    i
                } else {
                    i + 1
                };
                let bj = if j < index as int {
                    j
                } else {
                    j + 1
                };
                assert(after[i] == before[bi]);
                assert(after[j] == before[bj]);
            }
        }
    }

    /// The sum of the participants' public keys: the key that the votes of the
    /// poll are encrypted for once the set of participants is final.
    pub fn shared_key(&self) -> (key: Option<PublicKey>)
        ensures
            match key {
                Some(key) => combined_key(self@.participants) == Some(key@),
                None => combined_key(self@.participants) is None,
            },
    {
        if self.participants.len() == 0 {
            return None;
        }
        let mut sum: PublicKey = *self.participants[0].public_key();
        let mut i: usize = 1;
        assert(self.participants@.take(1).len() == 1);
        while i < self.participants.len()
            invariant
                1 <= i <= self.participants.len(),
                combined_key(self.participants@.take(i as int)) == Some(sum@),
            decreases self.participants.len() - i,
        {
            assert(self.participants@.take(i + 1).drop_last() =~= self.participants@.take(
                i as int,
            ));
            match add_keys(&sum, self.participants[i].public_key()) {
                Some(next) => {
                    sum = next;
                },
                None => {
                    proof {
                        lemma_combined_key_fails_on(self.participants@, i + 1);
                    }
                    return None;
                },
            }
            i += 1;
        }
        assert(self.participants@.take(i as int) =~= self.participants@);
        Some(sum)
    }

    /// Closes the set of participants: the shared key is set to the sum of
    /// their keys. Nothing changes where the sum cannot be formed, which is so
    /// where there is no participant.
    pub fn finalize_participants(&mut self)
        requires
            old(self)@.well_formed(),
        ensures
            final(self)@.well_formed(),
            final(self)@.created_at == old(self)@.created_at,
            final(self)@.spec == old(self)@.spec,
            final(self)@.participants == old(self)@.participants,
            final(self)@.tally_result == old(self)@.tally_result,
            match final(self)@.shared_key {
                Some(key) => combined_key(old(self)@.participants) == Some(key@),
                None => combined_key(old(self)@.participants) is None,
            },
            final(self)@.stage().index() >= old(self)@.stage().index(),
    {
        self.shared_key = self.shared_key();
    }

    /// The shared key of a poll whose set of participants is final.
    pub fn finalized_shared_key(&self) -> (key: &PublicKey)
        requires
            self@.shared_key is Some,
        ensures
            Some(*key) == self@.shared_key,
    {
        match &self.shared_key {
            Some(key) => key,
            None => vstd::pervasive::unreached(),
        }
    }

    /// The votes that the poll holds, added up option by option. `None` where
    /// they cannot be added up.
    pub fn cumulative_choices(&self) -> (sums: Option<Vec<Ciphertext>>)
        ensures
            match sums {
                Some(sums) => cumulative_choices(
                    self@.participants,
                    self@.spec.options@.len(),
                ) == Some(texts(sums@)) && sums.len() == self@.spec.options.len(),
                None => cumulative_choices(self@.participants, self@.spec.options@.len()) is None,
            },
    {
        cumulative_choices_of(&self.participants, self.spec.options.len())
    }

    /// Whether a participant has voted.
    pub fn contains_votes(&self) -> (contains: bool)
        ensures
            contains == (count_votes(self@.participants) > 0),
    {
        self.votes() > 0
    }

    /// Records `vote` as submitted at the time `now`, without checking it. The
    /// vote takes the place of an earlier vote of the same participant.
    pub fn insert_unchecked_vote(&mut self, vote: Vote, now: u64)
        requires
            old(self)@.well_formed(),
            old(self)@.shared_key is Some,
            old(self)@.tally_result is None,
            old(self)@.has_participant(vote.public_key),
        ensures
            final(self)@.well_formed(),
            final(self)@.created_at == old(self)@.created_at,
            final(self)@.spec == old(self)@.spec,
            final(self)@.shared_key == old(self)@.shared_key,
            final(self)@.tally_result == old(self)@.tally_result,
            vote_recorded(old(self)@.participants, final(self)@.participants, vote, now),
            count_votes(final(self)@.participants) == count_votes(old(self)@.participants) + (
            if has_voted(old(self)@.participants, vote.public_key) {
                0nat
            } else {
                1nat
            }),
            final(self)@.stage().index() >= old(self)@.stage().index(),
    {
        let ghost before = self.participants@;
        let i = self.place_of(&vote.public_key);
        self.participants[i].vote = Some(SubmittedVote::new(vote, now));
        proof {
            let after = self.participants@;
            lemma_key_of_one(before, i as int, vote.public_key);
            assert(vote_recorded(before, after, vote, now));
            laws::second_vote_replaces_the_first(before, after, vote, now);
            lemma_combined_key_same_keys(before, after);
        }
    }

    /// Closes the vote: from now on the poll takes tallier shares, and no
    /// votes.
    pub fn finalize_votes(&mut self)
        requires
            old(self)@.well_formed(),
            old(self)@.shared_key is Some,
            old(self)@.tally_result is None,
        ensures
            final(self)@ == (PollStateView {
                tally_result: Some(TallyResult::InProgress),
                ..old(self)@
            }),
            final(self)@.well_formed(),
            final(self)@.stage().index() >= old(self)@.stage().index(),
    {
        self.tally_result = Some(TallyResult::InProgress);
    }

    /// Checks `vote` against the poll and, where it passes, records it as
    /// submitted at the time `now`. A vote that is refused changes nothing.
    pub fn insert_vote(&mut self, poll_id: &PollId, vote: Vote, now: u64) -> (outcome: Result<
        (),
        VoteError,
    >)
        requires
            old(self)@.well_formed(),
            old(self)@.shared_key is Some,
            old(self)@.tally_result is None,
            vote.choice.signable(),
        ensures
            outcome == vote.verified(*poll_id, old(self)@),
            !old(self)@.has_participant(vote.public_key) ==> outcome == Err::<(), VoteError>(
                VoteError::IneligibleVoter,
            ),
            outcome is Err ==> final(self)@ == old(self)@,
            outcome is Ok ==> {
                &&& final(self)@.created_at == old(self)@.created_at
                &&& final(self)@.spec == old(self)@.spec
                &&& final(self)@.shared_key == old(self)@.shared_key
                &&& final(self)@.tally_result == old(self)@.tally_result
                &&& vote_recorded(old(self)@.participants, final(self)@.participants, vote, now)
                &&& count_votes(final(self)@.participants) == count_votes(
                    old(self)@.participants,
                ) + (if has_voted(old(self)@.participants, vote.public_key) {
                    0nat
                } else {
                    1nat
                })
            },
            final(self)@.well_formed(),
            final(self)@.stage().index() >= old(self)@.stage().index(),
            old(self)@.valid(*poll_id) ==> final(self)@.valid(*poll_id),
    {
        match vote.verify(poll_id, self) {
            Err(err) => Err(err),
            Ok(_) => {
                self.insert_unchecked_vote(vote, now);
                proof {
                    if old(self)@.valid(*poll_id) {
                        laws::valid_vote_keeps_poll_valid(old(self)@, self@, vote, now, *poll_id);
                    }
                }
                Ok(())
            },
        }
    }

    /// Whether the share of the participant with the public key `key` is the
    /// only one that the poll misses.
    fn misses_only(&self, key: &PublicKey) -> (only: bool)
        ensures
            only == completed_by(self.participants@, *key),
    {
        let mut k: usize = 0;
        while k < self.participants.len()
            invariant
                k <= self.participants.len(),
                forall|j: int|
                    0 <= j < k && (#[trigger] self.participants[j]).key()@ != key@
                        ==> self.participants[j].tallier_share is Some,
            decreases self.participants.len() - k,
        {
            if self.participants[k].tallier_share.is_none() && !self.participants[
                k
            ].public_key().same_as(key) {
                return false;
            }
            k += 1;
        }
        true
    }

    /// Records `share` as submitted at the time `now`, without checking it.
    /// With the last share that was missing the votes are decrypted and the
    /// poll is finished; the share must then be one with which the votes can
    /// be decrypted.
    pub fn insert_unchecked_tallier_share(&mut self, share: TallierShare, now: u64)
        requires
            old(self)@.well_formed(),
            old(self)@.tally_result == Some(TallyResult::InProgress),
            old(self)@.has_participant(share.public_key),
            completed_by(old(self)@.participants, share.public_key) ==> tally(
                old(self)@.participants,
                share_lists(old(self)@.participants, Some(share)),
                old(self)@.spec.options@.len(),
            ) is Some,
        ensures
            final(self)@.well_formed(),
            final(self)@.created_at == old(self)@.created_at,
            final(self)@.spec == old(self)@.spec,
            final(self)@.shared_key == old(self)@.shared_key,
            final(self)@.participants == with_share(old(self)@.participants, share, now),
            if completed_by(old(self)@.participants, share.public_key) {
                final(self)@.results() == tally(
                    old(self)@.participants,
                    share_lists(old(self)@.participants, Some(share)),
                    old(self)@.spec.options@.len(),
                )
            } else {
                final(self)@.tally_result == Some(TallyResult::InProgress)
            },
            final(self)@.stage().index() >= old(self)@.stage().index(),
    {
        let ghost before = self.participants@;
        let ghost options = self.spec.options@.len();
        let i = self.place_of(&share.public_key);
        let results = if self.misses_only(&share.public_key) {
            decrypt_tally(&self.participants, self.spec.options.len(), Some(&share))
        } else {
            None
        };
        self.participants[i].tallier_share = Some(SubmittedTallierShare::new(share, now));
        proof {
            let after = self.participants@;
            lemma_key_of_one(before, i as int, share.public_key);
            assert(after =~= with_share(before, share, now));
            assert(after =~= before.update(i as int, after[i as int]));
            lemma_count_where_update(before, i as int, after[i as int], voted());
            lemma_count_where_update(before, i as int, after[i as int], shared());
            lemma_combined_key_same_keys(before, after);
            lemma_count_where_uniform(after, shared());
            lemma_count_where_bounded(after, shared());
            assert(share_lists(after, None) =~= share_lists(before, Some(share)));
            lemma_tally_same_votes(before, after, share_lists(after, None), options);
            if completed_by(before, share.public_key) {
                assert forall|k: int| 0 <= k < after.len() implies shared()(
                    #[trigger] after[k],
                ) by {
                    if k != i as int {
                        assert(before[k].key()@ != share.public_key@);
                    }
                }
            } else {
                let k = choose|k: int|
                    0 <= k < before.len() && (#[trigger] before[k]).key()@ != share.public_key@
                        && !(before[k].tallier_share is Some);
                assert(!shared()(after[k]));
            }
        }
        match results {
            Some(results) => {
                self.tally_result = Some(TallyResult::Finished(results));
            },
            None => {},
        }
    }

    /// Checks `share` against the poll and, where it passes, records it as
    /// submitted at the time `now`. A share that is refused changes nothing.
    /// The last share that was missing is refused as
    /// [`TallierShareError::Undecryptable`] where the votes cannot be decrypted
    /// with it.
    pub fn insert_tallier_share(&mut self, poll_id: &PollId, share: TallierShare, now: u64) -> (outcome:
        Result<(), TallierShareError>)
        requires
            old(self)@.well_formed(),
            old(self)@.tally_result == Some(TallyResult::InProgress),
        ensures
            outcome == (match share.verified(*poll_id, old(self)@) {
                Err(err) => Err::<(), TallierShareError>(err),
                Ok(_) => if completed_by(old(self)@.participants, share.public_key) && tally(
                    old(self)@.participants,
                    share_lists(old(self)@.participants, Some(share)),
                    old(self)@.spec.options@.len(),
                ) is None {
                    Err::<(), TallierShareError>(TallierShareError::Undecryptable)
                } else {
                    Ok::<(), TallierShareError>(())
                },
            }),
            !old(self)@.has_participant(share.public_key) ==> outcome is Err,
            !old(self)@.has_participant(share.public_key) && share.shares.len()
                == old(self)@.spec.options.len() ==> outcome == Err::<(), TallierShareError>(
                TallierShareError::IneligibleTallier,
            ),
            outcome is Err ==> final(self)@ == old(self)@,
            outcome is Ok ==> {
                &&& final(self)@.created_at == old(self)@.created_at
                &&& final(self)@.spec == old(self)@.spec
                &&& final(self)@.shared_key == old(self)@.shared_key
                &&& final(self)@.participants == with_share(old(self)@.participants, share, now)
                &&& if completed_by(old(self)@.participants, share.public_key) {
                    final(self)@.results() == tally(
                        old(self)@.participants,
                        share_lists(old(self)@.participants, Some(share)),
                        old(self)@.spec.options@.len(),
                    )
                } else {
                    final(self)@.tally_result == Some(TallyResult::InProgress)
                }
            },
            final(self)@.well_formed(),
            final(self)@.stage().index() >= old(self)@.stage().index(),
            old(self)@.valid(*poll_id) ==> final(self)@.valid(*poll_id),
    {
        match share.verify(poll_id, self) {
            Err(err) => {
                return Err(err);
            },
            Ok(_) => {},
        }
        // The votes are decrypted with the last share that was missing, which
        // must be possible for the share to be recorded.
        if self.misses_only(&share.public_key) && decrypt_tally(
            &self.participants,
            self.spec.options.len(),
            Some(&share),
        ).is_none() {
            return Err(TallierShareError::Undecryptable);
        }
        self.insert_unchecked_tallier_share(share, now);
        proof {
            if old(self)@.valid(*poll_id) {
                laws::valid_share_keeps_poll_valid(old(self)@, self@, share, now, *poll_id);
            }
        }
        Ok(())
    }

    /// The numbers of votes for each option, once the poll is finished.
    pub fn results(&self) -> (results: Option<&Vec<u64>>)
        ensures
            match results {
                Some(results) => self@.results() == Some(results@),
                None => self@.results() is None,
            },
    {
        match &self.tally_result {
            Some(TallyResult::Finished(results)) => Some(results),
            _ => None,
        }
    }

    /// Whether no two participants have the same public key.
    fn has_distinct_keys(&self) -> (distinct: bool)
        ensures
            distinct == distinct_keys(self.participants@),
    {
        let mut j: usize = 0;
        while j < self.participants.len()
            invariant
                j <= self.participants.len(),
                forall|a: int, b: int|
                    0 <= a < b < j ==> (#[trigger] self.participants[a]).key()@ != (
                    #[trigger] self.participants[b]).key()@,
            decreases self.participants.len() - j,
        {
            let mut i: usize = 0;
            while i < j
                invariant
                    i <= j,
                    j < self.participants.len(),
                    forall|a: int|
                        0 <= a < i ==> (#[trigger] self.participants[a]).key()@
                            != self.participants[j as int].key()@,
                decreases j - i,
            {
                if self.participants[i].public_key().same_as(self.participants[j].public_key()) {
                    return false;
                }
                i += 1;
            }
            j += 1;
        }
        true
    }

    /// Whether each participant holds a vote and a tallier share only under
    /// the participant's own public key, and each vote with the right hash.
    fn has_own_submissions(&self) -> (own: bool)
        ensures
            own == (own_submissions(self.participants@) && self@.votes_sound()),
    {
        let mut i: usize = 0;
        while i < self.participants.len()
            invariant
                i <= self.participants.len(),
                own_submissions(self.participants@.take(i as int)),
                forall|k: int|
                    0 <= k < i ==> ((#[trigger] self.participants[k]).vote matches Some(vote)
                        ==> vote.inner.choice.signable() && vote.hash@ == SubmittedVote::hash_of(
                        vote.inner.choice,
                    )),
            decreases self.participants.len() - i,
        {
            let participant = &self.participants[i];
            match &participant.vote {
                Some(vote) => {
                    if !vote.inner.public_key.same_as(participant.public_key())
                        || !vote.inner.choice.is_signable() || !vote.has_own_hash() {
                        return false;
                    }
                },
                None => {},
            }
            match &participant.tallier_share {
                Some(share) => {
                    if !share.inner.public_key.same_as(participant.public_key()) {
                        return false;
                    }
                },
                None => {},
            }
            i += 1;
        }
        assert(self.participants@.take(i as int) =~= self.participants@);
        true
    }

    /// Whether the tally is at a stage that goes with the shares held, and
    /// the results, if any, are what the shares decrypt the votes to.
    fn has_sound_tally(&self) -> (sound: bool)
        ensures
            sound == {
                &&& self.shared_key is None ==> self.tally_result is None && count_votes(
                    self.participants@,
                ) == 0
                &&& self.tally_result is None ==> count_shares(self.participants@) == 0
                &&& self.tally_result == Some(TallyResult::InProgress) ==> count_shares(
                    self.participants@,
                ) < self.participants.len()
                &&& self.tally_result matches Some(TallyResult::Finished(results)) ==> {
                    &&& count_shares(self.participants@) == self.participants.len()
                    &&& tally(
                        self.participants@,
                        share_lists(self.participants@, None),
                        self.spec.options@.len(),
                    ) == Some(results@)
                    &&& forall|j: int|
                        0 <= j < results.len() ==> #[trigger] results[j]
                            <= self.participants.len()
                }
            },
    {
        if self.shared_key.is_none() && (self.tally_result.is_some() || self.votes() != 0) {
            return false;
        }
        match &self.tally_result {
            None => self.shares() == 0,
            Some(TallyResult::InProgress) => self.shares() < self.participants.len(),
            Some(TallyResult::Finished(results)) => {
                if self.shares() != self.participants.len() {
                    return false;
                }
                match decrypt_tally(&self.participants, self.spec.options.len(), None) {
                    None => false,
                    Some(counts) => {
                        if counts.len() != results.len() {
                            return false;
                        }
                        let mut j: usize = 0;
                        while j < counts.len()
                            invariant
                                j <= counts.len(),
                                counts.len() == results.len(),
                                forall|k: int| 0 <= k < j ==> counts[k] == results[k],
                                self.tally_result == Some(TallyResult::Finished(*results)),
                                self.shared_key is Some,
                                count_shares(self.participants@) == self.participants.len(),
                                tally(
                                    self.participants@,
                                    share_lists(self.participants@, None),
                                    self.spec.options@.len(),
                                ) == Some(counts@),
                            decreases counts.len() - j,
                        {
                            if counts[j] != results[j] {
                                return false;
                            }
                            j += 1;
                        }
                        assert(counts@ =~= results@);
                        true
                    },
                }
            },
        }
    }

    /// Whether the parts of the poll agree with each other.
    fn is_consistent(&self) -> (consistent: bool)
        ensures
            consistent == self@.consistent(),
    {
        if !self.spec.is_valid() || !self.has_distinct_keys() || !self.has_own_submissions() {
            return false;
        }
        match &self.shared_key {
            Some(key) => {
                match self.shared_key() {
                    Some(sum) => {
                        if !sum.same_as(key) {
                            return false;
                        }
                    },
                    None => {
                        return false;
                    },
                }
            },
            None => {},
        }
        self.has_sound_tally()
    }

    /// The first participant whose application is not valid.
    fn first_invalid_application(&self, poll_id: &PollId) -> (failure: Option<
        (usize, VerificationError),
    >)
        ensures
            failure == first_failure(self@.application_outcomes(*poll_id)),
    {
        let ghost outcomes = self@.application_outcomes(*poll_id);
        let mut i: usize = 0;
        assert(outcomes.take(0).len() == 0);
        while i < self.participants.len()
            invariant
                i <= self.participants.len(),
                outcomes == self@.application_outcomes(*poll_id),
                first_failure(outcomes.take(i as int)) is None,
            decreases self.participants.len() - i,
        {
            assert(outcomes.take(i + 1).drop_last() =~= outcomes.take(i as int));
            match self.participants[i].application.validate(poll_id) {
                Err(err) => {
                    proof {
                        lemma_first_failure_stays(outcomes, i + 1);
                    }
                    return Some((i, err));
                },
                Ok(_) => {},
            }
            i += 1;
        }
        assert(outcomes.take(i as int) =~= outcomes);
        None
    }

    /// The first participant whose vote is not valid.
    fn first_invalid_vote(&self, poll_id: &PollId) -> (failure: Option<(usize, VoteError)>)
        requires
            self@.consistent(),
        ensures
            failure == first_failure(self@.vote_outcomes(*poll_id)),
    {
        let ghost outcomes = self@.vote_outcomes(*poll_id);
        let mut i: usize = 0;
        assert(outcomes.take(0).len() == 0);
        proof {
            lemma_count_where_uniform(self.participants@, voted());
        }
        while i < self.participants.len()
            invariant
                i <= self.participants.len(),
                self@.consistent(),
                outcomes == self@.vote_outcomes(*poll_id),
                first_failure(outcomes.take(i as int)) is None,
                self.shared_key is None ==> forall|k: int|
                    0 <= k < self.participants.len() ==> !voted()(#[trigger] self.participants[k]),
            decreases self.participants.len() - i,
        {
            assert(outcomes.take(i + 1).drop_last() =~= outcomes.take(i as int));
            match &self.participants[i].vote {
                Some(vote) => {
                    assert(voted()(self.participants[i as int]));
                    match vote.inner.verify(poll_id, self) {
                        Err(err) => {
                            proof {
                                lemma_first_failure_stays(outcomes, i + 1);
                            }
                            return Some((i, err));
                        },
                        Ok(_) => {},
                    }
                },
                None => {},
            }
            i += 1;
        }
        assert(outcomes.take(i as int) =~= outcomes);
        None
    }

    /// The first participant whose tallier share is not valid.
    fn first_invalid_tallier_share(&self, poll_id: &PollId) -> (failure: Option<
        (usize, TallierShareError),
    >)
        requires
            self@.consistent(),
        ensures
            failure == first_failure(self@.share_outcomes(*poll_id)),
    {
        let ghost outcomes = self@.share_outcomes(*poll_id);
        let mut i: usize = 0;
        assert(outcomes.take(0).len() == 0);
        proof {
            lemma_count_where_uniform(self.participants@, shared());
        }
        while i < self.participants.len()
            invariant
                i <= self.participants.len(),
                self@.consistent(),
                outcomes == self@.share_outcomes(*poll_id),
                first_failure(outcomes.take(i as int)) is None,
                self.shared_key is None ==> forall|k: int|
                    0 <= k < self.participants.len() ==> !shared()(#[trigger] self.participants[k]),
            decreases self.participants.len() - i,
        {
            assert(outcomes.take(i + 1).drop_last() =~= outcomes.take(i as int));
            match &self.participants[i].tallier_share {
                Some(share) => {
                    assert(shared()(self.participants[i as int]));
                    match share.inner.verify(poll_id, self) {
                        Err(err) => {
                            proof {
                                lemma_first_failure_stays(outcomes, i + 1);
                            }
                            return Some((i, err));
                        },
                        Ok(_) => {},
                    }
                },
                None => {},
            }
            i += 1;
        }
        assert(outcomes.take(i as int) =~= outcomes);
        None
    }

    /// The shared key, where the set of participants is final.
    pub fn finalized_key(&self) -> (key: Option<PublicKey>)
        ensures
            key == self@.shared_key,
    {
        self.shared_key
    }

    /// Whether the votes are being tallied, or what the tally was; `None`
    /// while the vote is open.
    pub fn tally_result(&self) -> (tally_result: Option<&TallyResult>)
        ensures
            match tally_result {
                Some(tally_result) => self@.tally_result == Some(*tally_result),
                None => self@.tally_result is None,
            },
    {
        self.tally_result.as_ref()
    }

    /// Takes the parts of a poll in as a poll without checking the
    /// applications, votes and tallier shares: for parts that were stored by
    /// this application itself. The parts are refused where they contradict
    /// each other.
    pub fn restore(exported: ExportedPoll) -> (restored: Option<Self>)
        ensures
            match restored {
                Some(poll) => poll@ == exported@ && poll@.consistent(),
                None => !exported@.consistent(),
            },
    {
        let poll = PollState {
            created_at: exported.created_at,
            spec: exported.spec,
            participants: exported.participants,
            shared_key: exported.shared_key,
            tally_result: exported.tally_result,
        };
        if poll.is_consistent() {
            Some(poll)
        } else {
            None
        }
    }

    /// Hands over the parts of the poll.
    pub fn export(self) -> (exported: ExportedPoll)
        ensures
            exported@ == self@,
    {
        ExportedPoll {
            created_at: self.created_at,
            spec: self.spec,
            participants: self.participants,
            shared_key: self.shared_key,
            tally_result: self.tally_result,
        }
    }

    /// Takes the parts of a poll in as a poll, with the poll's ID. The parts
    /// are taken in unchanged where they agree with each other and each
    /// application, vote and tallier share passes its check; they are refused
    /// otherwise.
    pub fn import(exported: ExportedPoll) -> (imported: Result<(PollId, Self), ImportError>)
        ensures
            match imported {
                Ok((id, poll)) => {
                    &&& id@ == sha256_digest(encode_utf8(exported@.spec.canonical_json()))
                    &&& exported@.imported(id) == Ok::<PollStateView, ImportError>(poll@)
                    &&& poll@.valid(id)
                    &&& poll@.well_formed()
                },
                Err(err) => exists|id: PollId|
                    id@ == sha256_digest(encode_utf8(exported@.spec.canonical_json()))
                        && #[trigger] exported@.imported(id) == Err::<PollStateView, ImportError>(
                        err,
                    ),
            },
    {
        let ghost parts = exported@;
        let poll_id = PollId::for_spec(&exported.spec);
        let poll = PollState {
            created_at: exported.created_at,
            spec: exported.spec,
            participants: exported.participants,
            shared_key: exported.shared_key,
            tally_result: exported.tally_result,
        };
        assert(poll@ == parts);
        if !poll.is_consistent() {
            assert(parts.imported(poll_id) == Err::<PollStateView, ImportError>(
                ImportError::Inconsistent,
            ));
            return Err(ImportError::Inconsistent);
        }
        match poll.first_invalid_application(&poll_id) {
            Some((index, err)) => {
                assert(parts.imported(poll_id) == Err::<PollStateView, ImportError>(
                    ImportError::Application { index, err },
                ));
                return Err(ImportError::Application { index, err });
            },
            None => {},
        }
        match poll.first_invalid_vote(&poll_id) {
            Some((index, err)) => {
                assert(parts.imported(poll_id) == Err::<PollStateView, ImportError>(
                    ImportError::Vote { index, err },
                ));
                return Err(ImportError::Vote { index, err });
            },
            None => {},
        }
        match poll.first_invalid_tallier_share(&poll_id) {
            Some((index, err)) => {
                assert(parts.imported(poll_id) == Err::<PollStateView, ImportError>(
                    ImportError::TallierShare { index, err },
                ));
                return Err(ImportError::TallierShare { index, err });
            },
            None => {},
        }
        proof {
            laws::lemma_valid_unfolded(parts, poll_id);
        }
        Ok((poll_id, poll))
    }

    /// The stage of the poll: a projection of what the poll holds.
    pub fn stage(&self) -> (stage: PollStage)
        ensures
            stage == self@.stage(),
    {
        if self.shared_key.is_none() {
            PollStage::Participants { participants: self.participants.len() }
        } else {
            match &self.tally_result {
                None => PollStage::Voting {
                    votes: self.votes(),
                    participants: self.participants.len(),
                },
                Some(TallyResult::InProgress) => PollStage::Tallying {
                    shares: self.shares(),
                    participants: self.participants.len(),
                },
                Some(TallyResult::Finished(_)) => PollStage::Finished,
            }
        }
    }
}

} // verus!

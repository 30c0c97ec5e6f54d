//! What holds of polls over several steps: who is refused, what a second vote
//! changes, and that a poll which is built from checked submissions is taken
//! in again when it is handed over.

use crate::group::PublicKey;
use crate::poll::participant::{
    first_failure, Participant, ParticipantApplication, TallierShare, TallierShareError, Vote,
    VoteError,
};
use crate::poll::state::{
    count_shares, count_votes, distinct_keys, has_key, has_voted, lemma_count_where_uniform,
    lemma_key_of_one,
    lemma_count_where_update, shared, vote_recorded, voted, with_application, with_share,
    ImportError, PollStateView, TallyResult,
};
use crate::poll::tally::{lemma_tally_same_votes, share_lists};
use crate::poll::{PollId, PollSpec};
use crate::proofs::possession_outcome;
use vstd::prelude::*;

verus! {

/// There is no first failure exactly where every outcome is `Ok`.
pub proof fn lemma_no_failure<E>(outcomes: Seq<Result<(), E>>)
    ensures
        first_failure(outcomes) is None <==> forall|i: int|
            0 <= i < outcomes.len() ==> (#[trigger] outcomes[i]) is Ok,
    decreases outcomes.len(),
{
    if outcomes.len() > 0 {
        let head = outcomes.drop_last();
        lemma_no_failure(head);
        assert(forall|i: int| 0 <= i < head.len() ==> head[i] == outcomes[i]);
        if first_failure(outcomes) is None {
            assert forall|i: int| 0 <= i < outcomes.len() implies (#[trigger] outcomes[i]) is Ok by {
                if i < head.len() {
                    assert(head[i] == outcomes[i]);
                }
            }
        }
    }
}

/// A poll is valid exactly where its parts are taken in as a poll.
pub proof fn lemma_valid_unfolded(poll: PollStateView, id: PollId)
    ensures
        poll.valid(id) <==> poll.import_outcome(id) is Ok,
{
    lemma_no_failure(poll.application_outcomes(id));
    lemma_no_failure(poll.vote_outcomes(id));
    lemma_no_failure(poll.share_outcomes(id));
}

/// Whether a key is a participant's depends on the participants' keys alone.
pub proof fn lemma_has_key_same_keys(a: Seq<Participant>, b: Seq<Participant>, key: PublicKey)
    requires
        a.len() == b.len(),
        forall|i: int| 0 <= i < a.len() ==> (#[trigger] a[i]).key() == b[i].key(),
    ensures
        has_key(a, key) == has_key(b, key),
{
    if has_key(a, key) {
        let i = choose|i: int| 0 <= i < a.len() && (#[trigger] a[i]).key()@ == key@;
        assert(b[i].key()@ == key@);
    }
    if has_key(b, key) {
        let i = choose|i: int| 0 <= i < b.len() && (#[trigger] b[i]).key()@ == key@;
        assert(a[i].key() == b[i].key());
        assert(a[i].key()@ == key@);
    }
}

/// Whether a vote passes its check depends on the poll's specification, its
/// shared key and the keys of its participants alone.
pub proof fn lemma_vote_verified_alike(vote: Vote, id: PollId, a: PollStateView, b: PollStateView)
    requires
        a.spec == b.spec,
        a.shared_key == b.shared_key,
        a.participants.len() == b.participants.len(),
        forall|i: int|
            0 <= i < a.participants.len() ==> (#[trigger] a.participants[i]).key()
                == b.participants[i].key(),
    ensures
        vote.verified(id, a) == vote.verified(id, b),
{
    lemma_has_key_same_keys(a.participants, b.participants, vote.public_key);
}

/// Whether a tallier share passes its check depends on the poll's
/// specification, its shared key, the keys of its participants and their
/// votes alone.
pub proof fn lemma_share_verified_alike(
    share: TallierShare,
    id: PollId,
    a: PollStateView,
    b: PollStateView,
)
    requires
        a.spec == b.spec,
        a.shared_key == b.shared_key,
        a.participants.len() == b.participants.len(),
        forall|i: int|
            0 <= i < a.participants.len() ==> (#[trigger] a.participants[i]).key()
                == b.participants[i].key() && a.participants[i].vote == b.participants[i].vote,
    ensures
        share.verified(id, a) == share.verified(id, b),
{
    lemma_has_key_same_keys(a.participants, b.participants, share.public_key);
    lemma_tally_same_votes(
        a.participants,
        b.participants,
        share_lists(a.participants, None),
        a.spec.options@.len(),
    );
}

/// A vote under a public key that is not a participant's is refused as the
/// vote of an ineligible voter, whatever its signature and its proofs are.
pub proof fn ineligible_vote_is_refused(vote: Vote, id: PollId, poll: PollStateView)
    requires
        !poll.has_participant(vote.public_key),
    ensures
        vote.verified(id, poll) == Err::<(), VoteError>(VoteError::IneligibleVoter),
{
}

/// A tallier share under a public key that is not a participant's is refused,
/// whatever its proofs are: as the share of an ineligible tallier where it has
/// a share for each option, and for the number of its shares where it has not.
pub proof fn ineligible_share_is_refused(share: TallierShare, id: PollId, poll: PollStateView)
    requires
        !poll.has_participant(share.public_key),
    ensures
        share.verified(id, poll) is Err,
        share.shares.len() == poll.spec.options.len() ==> share.verified(id, poll) == Err::<
            (),
            TallierShareError,
        >(TallierShareError::IneligibleTallier),
{
}

/// A vote of a participant that has voted before takes the place of the
/// earlier vote: the number of votes stays the same. The first vote of a
/// participant adds one to it.
pub proof fn second_vote_replaces_the_first(
    before: Seq<Participant>,
    after: Seq<Participant>,
    vote: Vote,
    now: u64,
)
    requires
        distinct_keys(before),
        has_key(before, vote.public_key),
        vote_recorded(before, after, vote, now),
    ensures
        count_votes(after) == count_votes(before) + (if has_voted(before, vote.public_key) {
            0nat
        } else {
            1nat
        }),
        count_shares(after) == count_shares(before),
        forall|i: int|
            0 <= i < before.len() ==> (#[trigger] after[i]).key() == before[i].key(),
{
    let i = choose|i: int| 0 <= i < before.len() && (#[trigger] before[i]).key()@ == vote.public_key@;
    lemma_key_of_one(before, i, vote.public_key);
    assert(after =~= before.update(i, after[i]));
    lemma_count_where_update(before, i, after[i], voted());
    lemma_count_where_update(before, i, after[i], shared());
    assert(has_voted(before, vote.public_key) == (before[i].vote is Some));
}

/// The stage after a step is not before the stage that the poll was at: the
/// shared key, once set, stays, and so does the tally, once begun or finished.
pub proof fn stage_does_not_go_back(before: PollStateView, after: PollStateView)
    requires
        before.shared_key is Some ==> after.shared_key is Some,
        before.tally_result is Some ==> after.tally_result is Some,
        before.tally_result matches Some(TallyResult::Finished(_)) ==> after.tally_result matches Some(
            TallyResult::Finished(_),
        ),
        before.well_formed(),
        after.well_formed(),
    ensures
        after.stage().index() >= before.stage().index(),
{
}

/// A poll that is valid is taken in again as it was handed over: at the same
/// stage, with the same participants, votes and tallier shares.
pub proof fn valid_poll_is_taken_in_unchanged(poll: PollStateView, id: PollId)
    requires
        poll.valid(id),
    ensures
        poll.imported(id) == Ok::<PollStateView, ImportError>(poll),
        poll.imported(id)->Ok_0.stage() == poll.stage(),
        poll.imported(id)->Ok_0.participants == poll.participants,
{
    lemma_valid_unfolded(poll, id);
}

/// A poll that has just been opened is valid.
pub proof fn new_poll_is_valid(spec: PollSpec, created_at: u64, id: PollId)
    requires
        spec.valid(),
    ensures
        (PollStateView {
            created_at,
            spec,
            participants: Seq::empty(),
            shared_key: None,
            tally_result: None,
        }).valid(id),
{
    let poll = PollStateView {
        created_at,
        spec,
        participants: Seq::empty(),
        shared_key: None,
        tally_result: None,
    };
}

/// A valid poll stays valid when a participant is admitted whose application
/// is valid.
pub proof fn valid_application_keeps_poll_valid(
    before: PollStateView,
    application: ParticipantApplication,
    now: u64,
    id: PollId,
)
    requires
        before.valid(id),
        before.shared_key is None,
        possession_outcome(
            application.public_key@,
            application.participation_consent@,
            ParticipantApplication::consent_transcript(id),
        ) is Ok,
        (PollStateView {
            participants: with_application(before.participants, application, now),
            ..before
        }).well_formed(),
    ensures
        (PollStateView {
            participants: with_application(before.participants, application, now),
            ..before
        }).valid(id),
{
    let after = PollStateView {
        participants: with_application(before.participants, application, now),
        ..before
    };
    lemma_count_where_uniform(after.participants, voted());
    lemma_count_where_uniform(after.participants, shared());
    assert forall|i: int| 0 <= i < after.participants.len() implies (
    #[trigger] after.application_outcomes(id)[i]) is Ok by {
        if i < before.participants.len() && after.participants[i] == before.participants[i] {
            assert(before.application_outcomes(id)[i] is Ok);
        }
    }
    assert forall|i: int| 0 <= i < after.participants.len() implies (#[trigger] after.vote_outcomes(
        id,
    )[i]) is Ok by {
        assert(!voted()(after.participants[i]));
    }
    assert forall|i: int| 0 <= i < after.participants.len() implies (
    #[trigger] after.share_outcomes(id)[i]) is Ok by {
        assert(!shared()(after.participants[i]));
    }
    assert(after.votes_sound()) by {
        assert forall|i: int| 0 <= i < after.participants.len() implies (
        #[trigger] after.participants[i]).vote is None by {
            assert(!voted()(after.participants[i]));
        }
    }
}

/// A valid poll stays valid when a participant is removed.
pub proof fn removal_keeps_poll_valid(before: PollStateView, index: int, id: PollId)
    requires
        before.valid(id),
        before.shared_key is None,
        0 <= index < before.participants.len(),
        (PollStateView { participants: before.participants.remove(index), ..before }).well_formed(),
    ensures
        (PollStateView { participants: before.participants.remove(index), ..before }).valid(id),
{
    let after = PollStateView { participants: before.participants.remove(index), ..before };
    lemma_count_where_uniform(after.participants, voted());
    lemma_count_where_uniform(after.participants, shared());
    assert forall|i: int| 0 <= i < after.participants.len() implies (
    #[trigger] after.application_outcomes(id)[i]) is Ok by {
        if i < index {
            assert(after.participants[i] == before.participants[i]);
            assert(before.application_outcomes(id)[i] is Ok);
        } else {
            assert(after.participants[i] == before.participants[i + 1]);
            assert(before.application_outcomes(id)[i + 1] is Ok);
        }
    }
    assert forall|i: int| 0 <= i < after.participants.len() implies (#[trigger] after.vote_outcomes(
        id,
    )[i]) is Ok by {
        assert(!voted()(after.participants[i]));
    }
    assert forall|i: int| 0 <= i < after.participants.len() implies (
    #[trigger] after.share_outcomes(id)[i]) is Ok by {
        assert(!shared()(after.participants[i]));
    }
    assert(after.votes_sound()) by {
        assert forall|i: int| 0 <= i < after.participants.len() implies (
        #[trigger] after.participants[i]).vote is None by {
            assert(!voted()(after.participants[i]));
        }
    }
}

/// A valid poll stays valid when its participants, its votes and its shares
/// stay as they are and it goes on to a later stage: the set of participants
/// is closed, or the vote is.
pub proof fn closing_keeps_poll_valid(before: PollStateView, after: PollStateView, id: PollId)
    requires
        before.valid(id),
        after.well_formed(),
        after.spec == before.spec,
        after.participants == before.participants,
        after.shared_key == before.shared_key || (before.shared_key is None
            && before.tally_result is None),
    ensures
        after.valid(id),
{
    lemma_count_where_uniform(before.participants, voted());
    lemma_count_where_uniform(before.participants, shared());
    assert(forall|i: int|
        0 <= i < after.participants.len() ==> (#[trigger] after.application_outcomes(id)[i])
            == before.application_outcomes(id)[i]);
    assert forall|i: int| 0 <= i < after.participants.len() implies (#[trigger] after.vote_outcomes(
        id,
    )[i]) is Ok by {
        match after.participants[i].vote {
            Some(vote) => {
                assert(voted()(before.participants[i]));
                lemma_vote_verified_alike(vote.inner, id, before, after);
                assert(before.vote_outcomes(id)[i] is Ok);
            },
            None => {},
        }
    }
    assert forall|i: int| 0 <= i < after.participants.len() implies (
    #[trigger] after.share_outcomes(id)[i]) is Ok by {
        match after.participants[i].tallier_share {
            Some(share) => {
                assert(shared()(before.participants[i]));
                lemma_share_verified_alike(share.inner, id, before, after);
                assert(before.share_outcomes(id)[i] is Ok);
            },
            None => {},
        }
    }
    assert(after.votes_sound()) by {
        assert forall|i: int| 0 <= i < after.participants.len() implies ((
        #[trigger] after.participants[i]).vote matches Some(vote)
            ==> vote.inner.choice.signable() && vote.hash@
            == crate::poll::SubmittedVote::hash_of(vote.inner.choice)) by {
            assert(before.participants[i] == after.participants[i]);
        }
    }
}

/// A valid poll stays valid when a vote is recorded that passes its check.
pub proof fn valid_vote_keeps_poll_valid(
    before: PollStateView,
    after: PollStateView,
    vote: Vote,
    now: u64,
    id: PollId,
)
    requires
        before.valid(id),
        before.tally_result is None,
        vote.verified(id, before) is Ok,
        vote.choice.signable(),
        after.well_formed(),
        after.spec == before.spec,
        after.shared_key == before.shared_key,
        after.tally_result == before.tally_result,
        vote_recorded(before.participants, after.participants, vote, now),
    ensures
        after.valid(id),
{
    lemma_count_where_uniform(after.participants, shared());
    assert forall|i: int| 0 <= i < after.participants.len() implies (
    #[trigger] after.participants[i]).key() == before.participants[i].key() by {
        assert(before.participants[i].key()@ == vote.public_key@ || after.participants[i]
            == before.participants[i]);
    }
    assert forall|i: int| 0 <= i < after.participants.len() implies (
    #[trigger] after.application_outcomes(id)[i]) is Ok by {
        assert(after.participants[i].application == before.participants[i].application) by {
            assert(before.participants[i].key()@ == vote.public_key@ || after.participants[i]
                == before.participants[i]);
        }
        assert(before.application_outcomes(id)[i] is Ok);
    }
    assert forall|i: int| 0 <= i < after.participants.len() implies (#[trigger] after.vote_outcomes(
        id,
    )[i]) is Ok by {
        match after.participants[i].vote {
            Some(submitted) => {
                lemma_vote_verified_alike(submitted.inner, id, before, after);
                if before.participants[i].key()@ == vote.public_key@ {
                    assert(submitted.inner == vote);
                } else {
                    assert(after.participants[i] == before.participants[i]);
                    assert(before.vote_outcomes(id)[i] is Ok);
                }
            },
            None => {},
        }
    }
    assert forall|i: int| 0 <= i < after.participants.len() implies (
    #[trigger] after.share_outcomes(id)[i]) is Ok by {
        assert(!shared()(after.participants[i]));
    }
    assert(after.votes_sound()) by {
        assert forall|i: int| 0 <= i < after.participants.len() implies ((
        #[trigger] after.participants[i]).vote matches Some(submitted)
            ==> submitted.inner.choice.signable() && submitted.hash@
            == crate::poll::SubmittedVote::hash_of(submitted.inner.choice)) by {
            if before.participants[i].key()@ != vote.public_key@ {
                assert(after.participants[i] == before.participants[i]);
            }
        }
    }
}

/// A valid poll stays valid when a tallier share is recorded that passes its
/// check.
pub proof fn valid_share_keeps_poll_valid(
    before: PollStateView,
    after: PollStateView,
    share: TallierShare,
    now: u64,
    id: PollId,
)
    requires
        before.valid(id),
        share.verified(id, before) is Ok,
        after.well_formed(),
        after.spec == before.spec,
        after.shared_key == before.shared_key,
        after.participants == with_share(before.participants, share, now),
    ensures
        after.valid(id),
{
    assert(forall|i: int|
        0 <= i < after.participants.len() ==> (#[trigger] after.participants[i]).application
            == before.participants[i].application && after.participants[i].vote
            == before.participants[i].vote);
    assert forall|i: int| 0 <= i < after.participants.len() implies (
    #[trigger] after.application_outcomes(id)[i]) is Ok by {
        assert(after.participants[i].application == before.participants[i].application);
        assert(before.application_outcomes(id)[i] is Ok);
    }
    assert forall|i: int| 0 <= i < after.participants.len() implies (#[trigger] after.vote_outcomes(
        id,
    )[i]) is Ok by {
        assert(after.participants[i].vote == before.participants[i].vote);
        match after.participants[i].vote {
            Some(submitted) => {
                lemma_vote_verified_alike(submitted.inner, id, before, after);
                assert(before.vote_outcomes(id)[i] is Ok);
            },
            None => {},
        }
    }
    assert forall|i: int| 0 <= i < after.participants.len() implies (
    #[trigger] after.share_outcomes(id)[i]) is Ok by {
        match after.participants[i].tallier_share {
            Some(submitted) => {
                lemma_share_verified_alike(submitted.inner, id, before, after);
                if before.participants[i].key()@ == share.public_key@ {
                    assert(submitted.inner == share);
                } else {
                    assert(after.participants[i] == before.participants[i]);
                    assert(before.share_outcomes(id)[i] is Ok);
                }
            },
            None => {},
        }
    }
    assert(after.votes_sound()) by {
        assert forall|i: int| 0 <= i < after.participants.len() implies ((
        #[trigger] after.participants[i]).vote matches Some(submitted)
            ==> submitted.inner.choice.signable() && submitted.hash@
            == crate::poll::SubmittedVote::hash_of(submitted.inner.choice)) by {
            assert(after.participants[i].vote == before.participants[i].vote);
        }
    }
}

} // verus!
